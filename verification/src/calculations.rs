//! Balun/unun transformer ratios: labels and parsing.
use crate::text;
use vstd::prelude::*;

verus! {

/// Impedance transformation ratio 1:N of a balun or unun.
#[derive(Debug, Clone, Copy, PartialEq, Eq, Structural)]
pub enum TransformerRatio {
    R1To1,
    R1To2,
    R1To4,
    R1To5,
    R1To6,
    R1To9,
    R1To16,
    R1To49,
    R1To56,
    R1To64,
}

/// Ground quality class under the antenna.
#[derive(Debug, Clone, Copy, PartialEq, Eq, Structural)]
pub enum GroundClass {
    Poor,
    Average,
    Good,
}

/// The label of a ground class.
pub open spec fn ground_label(g: GroundClass) -> Seq<char> {
    match g {
        GroundClass::Poor => "poor"@,
        GroundClass::Average => "average"@,
        GroundClass::Good => "good"@,
    }
}

impl GroundClass {
    /// The label ("poor", "average" or "good").
    pub fn as_label(self) -> (s: &'static str)
        ensures
            s@ == ground_label(self),
    {
        match self {
            GroundClass::Poor => "poor",
            GroundClass::Average => "average",
            GroundClass::Good => "good",
        }
    }
}

/// The label "1:N" of a ratio.
pub open spec fn ratio_label(r: TransformerRatio) -> Seq<char> {
    match r {
        TransformerRatio::R1To1 => "1:1"@,
        TransformerRatio::R1To2 => "1:2"@,
        TransformerRatio::R1To4 => "1:4"@,
        TransformerRatio::R1To5 => "1:5"@,
        TransformerRatio::R1To6 => "1:6"@,
        TransformerRatio::R1To9 => "1:9"@,
        TransformerRatio::R1To16 => "1:16"@,
        TransformerRatio::R1To49 => "1:49"@,
        TransformerRatio::R1To56 => "1:56"@,
        TransformerRatio::R1To64 => "1:64"@,
    }
}

/// The impedance factor N of a ratio 1:N.
pub open spec fn ratio_factor(r: TransformerRatio) -> u32 {
    match r {
        TransformerRatio::R1To1 => 1,
        TransformerRatio::R1To2 => 2,
        TransformerRatio::R1To4 => 4,
        TransformerRatio::R1To5 => 5,
        TransformerRatio::R1To6 => 6,
        TransformerRatio::R1To9 => 9,
        TransformerRatio::R1To16 => 16,
        TransformerRatio::R1To49 => 49,
        TransformerRatio::R1To56 => 56,
        TransformerRatio::R1To64 => 64,
    }
}

/// What parsing a ratio gives back: the trimmed text must be "1:N" or "N"
/// for one of the supported N.
pub open spec fn parse_ratio_spec(s: Seq<char>) -> Option<TransformerRatio> {
    let t = text::trim(s);
    if t == "1:1"@ || t == "1"@ {
        Some(TransformerRatio::R1To1)
    } else if t == "1:2"@ || t == "2"@ {
        Some(TransformerRatio::R1To2)
    } else if t == "1:4"@ || t == "4"@ {
        Some(TransformerRatio::R1To4)
    } else if t == "1:5"@ || t == "5"@ {
        Some(TransformerRatio::R1To5)
    } else if t == "1:6"@ || t == "6"@ {
        Some(TransformerRatio::R1To6)
    } else if t == "1:9"@ || t == "9"@ {
        Some(TransformerRatio::R1To9)
    } else if t == "1:16"@ || t == "16"@ {
        Some(TransformerRatio::R1To16)
    } else if t == "1:49"@ || t == "49"@ {
        Some(TransformerRatio::R1To49)
    } else if t == "1:56"@ || t == "56"@ {
        Some(TransformerRatio::R1To56)
    } else if t == "1:64"@ || t == "64"@ {
        Some(TransformerRatio::R1To64)
    } else {
        None
    }
}

/// The error text for a rejected ratio.
pub open spec fn ratio_error_text(s: Seq<char>) -> Seq<char> {
    "Invalid transformer ratio '"@ + s
        + "'. Must be one of: 1:1, 1:2, 1:4, 1:5, 1:6, 1:9, 1:16, 1:49, 1:56, 1:64"@
}

impl TransformerRatio {
    /// The label "1:N".
    pub fn as_label(self) -> (s: &'static str)
        ensures
            s@ == ratio_label(self),
    {
        match self {
            TransformerRatio::R1To1 => "1:1",
            TransformerRatio::R1To2 => "1:2",
            TransformerRatio::R1To4 => "1:4",
            TransformerRatio::R1To5 => "1:5",
            TransformerRatio::R1To6 => "1:6",
            TransformerRatio::R1To9 => "1:9",
            TransformerRatio::R1To16 => "1:16",
            TransformerRatio::R1To49 => "1:49",
            TransformerRatio::R1To56 => "1:56",
            TransformerRatio::R1To64 => "1:64",
        }
    }

    /// The impedance factor N of the ratio 1:N.
    pub fn impedance_ratio(self) -> (n: u32)
        ensures
            n == ratio_factor(self),
    {
        match self {
            TransformerRatio::R1To1 => 1,
            TransformerRatio::R1To2 => 2,
            TransformerRatio::R1To4 => 4,
            TransformerRatio::R1To5 => 5,
            TransformerRatio::R1To6 => 6,
            TransformerRatio::R1To9 => 9,
            TransformerRatio::R1To16 => 16,
            TransformerRatio::R1To49 => 49,
            TransformerRatio::R1To56 => 56,
            TransformerRatio::R1To64 => 64,
        }
    }

    /// Parses "1:N" or "N" (surrounding whitespace ignored).
    pub fn parse(raw: &str) -> (r: Option<TransformerRatio>)
        ensures
            r == parse_ratio_spec(raw@),
    {
        let cs = text::chars_of(raw);
        let t = text::trim_chars(&cs);
        if text::chars_eq_str(&t, "1:1") || text::chars_eq_str(&t, "1") {
            Some(TransformerRatio::R1To1)
        } else if text::chars_eq_str(&t, "1:2") || text::chars_eq_str(&t, "2") {
            Some(TransformerRatio::R1To2)
        } else if text::chars_eq_str(&t, "1:4") || text::chars_eq_str(&t, "4") {
            Some(TransformerRatio::R1To4)
        } else if text::chars_eq_str(&t, "1:5") || text::chars_eq_str(&t, "5") {
            Some(TransformerRatio::R1To5)
        } else if text::chars_eq_str(&t, "1:6") || text::chars_eq_str(&t, "6") {
            Some(TransformerRatio::R1To6)
        } else if text::chars_eq_str(&t, "1:9") || text::chars_eq_str(&t, "9") {
            Some(TransformerRatio::R1To9)
        } else if text::chars_eq_str(&t, "1:16") || text::chars_eq_str(&t, "16") {
            Some(TransformerRatio::R1To16)
        } else if text::chars_eq_str(&t, "1:49") || text::chars_eq_str(&t, "49") {
            Some(TransformerRatio::R1To49)
        } else if text::chars_eq_str(&t, "1:56") || text::chars_eq_str(&t, "56") {
            Some(TransformerRatio::R1To56)
        } else if text::chars_eq_str(&t, "1:64") || text::chars_eq_str(&t, "64") {
            Some(TransformerRatio::R1To64)
        } else {
            None
        }
    }

    /// Parses like `parse`, naming the rejected input in the error.
    pub fn parse_or_error(raw: &str) -> (r: Result<TransformerRatio, String>)
        ensures
            r matches Ok(ratio) ==> parse_ratio_spec(raw@) == Some(ratio),
            r matches Err(msg) ==> parse_ratio_spec(raw@) is None && msg@ == ratio_error_text(
                raw@,
            ),
    {
        match Self::parse(raw) {
            Some(ratio) => Ok(ratio),
            None => {
                let mut v: Vec<char> = Vec::new();
                text::push_str(&mut v, "Invalid transformer ratio '");
                text::push_str(&mut v, raw);
                text::push_str(
                    &mut v,
                    "'. Must be one of: 1:1, 1:2, 1:4, 1:5, 1:6, 1:9, 1:16, 1:49, 1:56, 1:64",
                );
                assert(v@ =~= ratio_error_text(raw@));
                Err(text::string_of(&v))
            },
        }
    }
}

impl std::str::FromStr for TransformerRatio {
    type Err = String;

    fn from_str(s: &str) -> (r: Result<Self, Self::Err>)
        ensures
            r matches Ok(ratio) ==> parse_ratio_spec(s@) == Some(ratio),
            r matches Err(msg) ==> parse_ratio_spec(s@) is None && msg@ == ratio_error_text(s@),
    {
        TransformerRatio::parse_or_error(s)
    }
}

proof fn lemma_neq_len(a: Seq<char>, b: Seq<char>)
    requires
        a.len() != b.len(),
    ensures
        a != b,
{
}

proof fn lemma_neq_at(a: Seq<char>, b: Seq<char>, i: int)
    requires
        0 <= i < a.len(),
        i < b.len(),
        a[i] != b[i],
    ensures
        a != b,
{
}

/// Every ratio is read back from its own label: `parse(as_label(r)) == Some(r)`.
pub proof fn lemma_parse_label_round_trip(r: TransformerRatio)
    ensures
        parse_ratio_spec(ratio_label(r)) == Some(r),
{
    reveal_strlit("1:1");
    reveal_strlit("1");
    reveal_strlit("1:2");
    reveal_strlit("2");
    reveal_strlit("1:4");
    reveal_strlit("4");
    reveal_strlit("1:5");
    reveal_strlit("5");
    reveal_strlit("1:6");
    reveal_strlit("6");
    reveal_strlit("1:9");
    reveal_strlit("9");
    reveal_strlit("1:16");
    reveal_strlit("16");
    reveal_strlit("1:49");
    reveal_strlit("49");
    reveal_strlit("1:56");
    reveal_strlit("56");
    reveal_strlit("1:64");
    reveal_strlit("64");
    let s = ratio_label(r);
    assert(!text::is_ws(s[0]));
    assert(!text::is_ws(s.last()));
    assert(text::trim_start(s) == s);
    assert(text::trim_end(s) == s);
    assert(text::trim(s) == s);
    match r {
        TransformerRatio::R1To1 => {
        },
        TransformerRatio::R1To2 => {
            lemma_neq_at("1:2"@, "1:1"@, 2);
            lemma_neq_len("1:2"@, "1"@);
        },
        TransformerRatio::R1To4 => {
            lemma_neq_at("1:4"@, "1:1"@, 2);
            lemma_neq_len("1:4"@, "1"@);
            lemma_neq_at("1:4"@, "1:2"@, 2);
            lemma_neq_len("1:4"@, "2"@);
        },
        TransformerRatio::R1To5 => {
            lemma_neq_at("1:5"@, "1:1"@, 2);
            lemma_neq_len("1:5"@, "1"@);
            lemma_neq_at("1:5"@, "1:2"@, 2);
            lemma_neq_len("1:5"@, "2"@);
            lemma_neq_at("1:5"@, "1:4"@, 2);
            lemma_neq_len("1:5"@, "4"@);
        },
        TransformerRatio::R1To6 => {
            lemma_neq_at("1:6"@, "1:1"@, 2);
            lemma_neq_len("1:6"@, "1"@);
            lemma_neq_at("1:6"@, "1:2"@, 2);
            lemma_neq_len("1:6"@, "2"@);
            lemma_neq_at("1:6"@, "1:4"@, 2);
            lemma_neq_len("1:6"@, "4"@);
            lemma_neq_at("1:6"@, "1:5"@, 2);
            lemma_neq_len("1:6"@, "5"@);
        },
        TransformerRatio::R1To9 => {
            lemma_neq_at("1:9"@, "1:1"@, 2);
            lemma_neq_len("1:9"@, "1"@);
            lemma_neq_at("1:9"@, "1:2"@, 2);
            lemma_neq_len("1:9"@, "2"@);
            lemma_neq_at("1:9"@, "1:4"@, 2);
            lemma_neq_len("1:9"@, "4"@);
            lemma_neq_at("1:9"@, "1:5"@, 2);
            lemma_neq_len("1:9"@, "5"@);
            lemma_neq_at("1:9"@, "1:6"@, 2);
            lemma_neq_len("1:9"@, "6"@);
        },
        TransformerRatio::R1To16 => {
            lemma_neq_len("1:16"@, "1:1"@);
            lemma_neq_len("1:16"@, "1"@);
            lemma_neq_len("1:16"@, "1:2"@);
            lemma_neq_len("1:16"@, "2"@);
            lemma_neq_len("1:16"@, "1:4"@);
            lemma_neq_len("1:16"@, "4"@);
            lemma_neq_len("1:16"@, "1:5"@);
            lemma_neq_len("1:16"@, "5"@);
            lemma_neq_len("1:16"@, "1:6"@);
            lemma_neq_len("1:16"@, "6"@);
            lemma_neq_len("1:16"@, "1:9"@);
            lemma_neq_len("1:16"@, "9"@);
        },
        TransformerRatio::R1To49 => {
            lemma_neq_len("1:49"@, "1:1"@);
            lemma_neq_len("1:49"@, "1"@);
            lemma_neq_len("1:49"@, "1:2"@);
            lemma_neq_len("1:49"@, "2"@);
            lemma_neq_len("1:49"@, "1:4"@);
            lemma_neq_len("1:49"@, "4"@);
            lemma_neq_len("1:49"@, "1:5"@);
            lemma_neq_len("1:49"@, "5"@);
            lemma_neq_len("1:49"@, "1:6"@);
            lemma_neq_len("1:49"@, "6"@);
            lemma_neq_len("1:49"@, "1:9"@);
            lemma_neq_len("1:49"@, "9"@);
            lemma_neq_at("1:49"@, "1:16"@, 2);
            lemma_neq_len("1:49"@, "16"@);
        },
        TransformerRatio::R1To56 => {
            lemma_neq_len("1:56"@, "1:1"@);
            lemma_neq_len("1:56"@, "1"@);
            lemma_neq_len("1:56"@, "1:2"@);
            lemma_neq_len("1:56"@, "2"@);
            lemma_neq_len("1:56"@, "1:4"@);
            lemma_neq_len("1:56"@, "4"@);
            lemma_neq_len("1:56"@, "1:5"@);
            lemma_neq_len("1:56"@, "5"@);
            lemma_neq_len("1:56"@, "1:6"@);
            lemma_neq_len("1:56"@, "6"@);
            lemma_neq_len("1:56"@, "1:9"@);
            lemma_neq_len("1:56"@, "9"@);
            lemma_neq_at("1:56"@, "1:16"@, 2);
            lemma_neq_len("1:56"@, "16"@);
            lemma_neq_at("1:56"@, "1:49"@, 2);
            lemma_neq_len("1:56"@, "49"@);
        },
        TransformerRatio::R1To64 => {
            lemma_neq_len("1:64"@, "1:1"@);
            lemma_neq_len("1:64"@, "1"@);
            lemma_neq_len("1:64"@, "1:2"@);
            lemma_neq_len("1:64"@, "2"@);
            lemma_neq_len("1:64"@, "1:4"@);
            lemma_neq_len("1:64"@, "4"@);
            lemma_neq_len("1:64"@, "1:5"@);
            lemma_neq_len("1:64"@, "5"@);
            lemma_neq_len("1:64"@, "1:6"@);
            lemma_neq_len("1:64"@, "6"@);
            lemma_neq_len("1:64"@, "1:9"@);
            lemma_neq_len("1:64"@, "9"@);
            lemma_neq_at("1:64"@, "1:16"@, 2);
            lemma_neq_len("1:64"@, "16"@);
            lemma_neq_at("1:64"@, "1:49"@, 2);
            lemma_neq_len("1:64"@, "49"@);
            lemma_neq_at("1:64"@, "1:56"@, 2);
            lemma_neq_len("1:64"@, "56"@);
        },
    }
}

/// Parsing looks only at the trimmed text: surrounding whitespace is ignored.
pub proof fn lemma_parse_ignores_whitespace(s: Seq<char>)
    ensures
        parse_ratio_spec(s) == parse_ratio_spec(text::trim(s)),
{
    text::lemma_trim_idempotent(s);
}

/// Every ratio is also read back from its factor alone: `parse("N")` gives
/// the ratio 1:N.
pub proof fn lemma_parse_factor_round_trip(r: TransformerRatio)
    ensures
        parse_ratio_spec(text::decimal(ratio_factor(r) as nat)) == Some(r),
{
    reveal_strlit("1");
    reveal_strlit("2");
    reveal_strlit("4");
    reveal_strlit("5");
    reveal_strlit("6");
    reveal_strlit("9");
    reveal_strlit("16");
    reveal_strlit("49");
    reveal_strlit("56");
    reveal_strlit("64");
    reveal_strlit("1:1");
    reveal_strlit("1:2");
    reveal_strlit("1:4");
    reveal_strlit("1:5");
    reveal_strlit("1:6");
    reveal_strlit("1:9");
    reveal_strlit("1:16");
    reveal_strlit("1:49");
    reveal_strlit("1:56");
    reveal_strlit("1:64");
    let d = text::decimal(ratio_factor(r) as nat);
    assert(text::decimal(1) == seq!['1']);
    assert(text::decimal(6) == seq!['6']);
    assert(text::decimal(4) == seq!['4']);
    assert(text::decimal(5) == seq!['5']);
    assert(text::decimal(9) == seq!['9']);
    assert(!text::is_ws(d[0]));
    assert(!text::is_ws(d.last()));
    assert(text::trim_start(d) == d);
    assert(text::trim_end(d) == d);
    assert(text::trim(d) == d);
    match r {
        TransformerRatio::R1To1 => {
            assert(d =~= "1"@);

        },
        TransformerRatio::R1To2 => {
            assert(d =~= "2"@);
            lemma_neq_at("2"@, "1"@, 0);
            lemma_neq_len("2"@, "1:1"@);
        },
        TransformerRatio::R1To4 => {
            assert(d =~= "4"@);
            lemma_neq_at("4"@, "1"@, 0);
            lemma_neq_len("4"@, "1:1"@);
            lemma_neq_at("4"@, "2"@, 0);
            lemma_neq_len("4"@, "1:2"@);
        },
        TransformerRatio::R1To5 => {
            assert(d =~= "5"@);
            lemma_neq_at("5"@, "1"@, 0);
            lemma_neq_len("5"@, "1:1"@);
            lemma_neq_at("5"@, "2"@, 0);
            lemma_neq_len("5"@, "1:2"@);
            lemma_neq_at("5"@, "4"@, 0);
            lemma_neq_len("5"@, "1:4"@);
        },
        TransformerRatio::R1To6 => {
            assert(d =~= "6"@);
            lemma_neq_at("6"@, "1"@, 0);
            lemma_neq_len("6"@, "1:1"@);
            lemma_neq_at("6"@, "2"@, 0);
            lemma_neq_len("6"@, "1:2"@);
            lemma_neq_at("6"@, "4"@, 0);
            lemma_neq_len("6"@, "1:4"@);
            lemma_neq_at("6"@, "5"@, 0);
            lemma_neq_len("6"@, "1:5"@);
        },
        TransformerRatio::R1To9 => {
            assert(d =~= "9"@);
            lemma_neq_at("9"@, "1"@, 0);
            lemma_neq_len("9"@, "1:1"@);
            lemma_neq_at("9"@, "2"@, 0);
            lemma_neq_len("9"@, "1:2"@);
            lemma_neq_at("9"@, "4"@, 0);
            lemma_neq_len("9"@, "1:4"@);
            lemma_neq_at("9"@, "5"@, 0);
            lemma_neq_len("9"@, "1:5"@);
            lemma_neq_at("9"@, "6"@, 0);
            lemma_neq_len("9"@, "1:6"@);
        },
        TransformerRatio::R1To16 => {
            assert(d =~= "16"@);
            lemma_neq_len("16"@, "1"@);
            lemma_neq_len("16"@, "1:1"@);
            lemma_neq_len("16"@, "2"@);
            lemma_neq_len("16"@, "1:2"@);
            lemma_neq_len("16"@, "4"@);
            lemma_neq_len("16"@, "1:4"@);
            lemma_neq_len("16"@, "5"@);
            lemma_neq_len("16"@, "1:5"@);
            lemma_neq_len("16"@, "6"@);
            lemma_neq_len("16"@, "1:6"@);
            lemma_neq_len("16"@, "9"@);
            lemma_neq_len("16"@, "1:9"@);
        },
        TransformerRatio::R1To49 => {
            assert(d =~= "49"@);
            lemma_neq_len("49"@, "1"@);
            lemma_neq_len("49"@, "1:1"@);
            lemma_neq_len("49"@, "2"@);
            lemma_neq_len("49"@, "1:2"@);
            lemma_neq_len("49"@, "4"@);
            lemma_neq_len("49"@, "1:4"@);
            lemma_neq_len("49"@, "5"@);
            lemma_neq_len("49"@, "1:5"@);
            lemma_neq_len("49"@, "6"@);
            lemma_neq_len("49"@, "1:6"@);
            lemma_neq_len("49"@, "9"@);
            lemma_neq_len("49"@, "1:9"@);
            lemma_neq_at("49"@, "16"@, 0);
            lemma_neq_len("49"@, "1:16"@);
        },
        TransformerRatio::R1To56 => {
            assert(d =~= "56"@);
            lemma_neq_len("56"@, "1"@);
            lemma_neq_len("56"@, "1:1"@);
            lemma_neq_len("56"@, "2"@);
            lemma_neq_len("56"@, "1:2"@);
            lemma_neq_len("56"@, "4"@);
            lemma_neq_len("56"@, "1:4"@);
            lemma_neq_len("56"@, "5"@);
            lemma_neq_len("56"@, "1:5"@);
            lemma_neq_len("56"@, "6"@);
            lemma_neq_len("56"@, "1:6"@);
            lemma_neq_len("56"@, "9"@);
            lemma_neq_len("56"@, "1:9"@);
            lemma_neq_at("56"@, "16"@, 0);
            lemma_neq_len("56"@, "1:16"@);
            lemma_neq_at("56"@, "49"@, 0);
            lemma_neq_len("56"@, "1:49"@);
        },
        TransformerRatio::R1To64 => {
            assert(d =~= "64"@);
            lemma_neq_len("64"@, "1"@);
            lemma_neq_len("64"@, "1:1"@);
            lemma_neq_len("64"@, "2"@);
            lemma_neq_len("64"@, "1:2"@);
            lemma_neq_len("64"@, "4"@);
            lemma_neq_len("64"@, "1:4"@);
            lemma_neq_len("64"@, "5"@);
            lemma_neq_len("64"@, "1:5"@);
            lemma_neq_len("64"@, "6"@);
            lemma_neq_len("64"@, "1:6"@);
            lemma_neq_len("64"@, "9"@);
            lemma_neq_len("64"@, "1:9"@);
            lemma_neq_at("64"@, "16"@, 0);
            lemma_neq_len("64"@, "1:16"@);
            lemma_neq_at("64"@, "49"@, 0);
            lemma_neq_len("64"@, "1:49"@);
            lemma_neq_at("64"@, "56"@, 0);
            lemma_neq_len("64"@, "1:56"@);
        },
    }
}

} // verus!
