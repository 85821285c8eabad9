//! Band-selection parsing, band labels and the band listing view.
//!
//! A selection is a comma-separated list of band names ("40m", "20m", or the
//! full catalog name, ASCII case ignored) and ranges ("10m-15m"), which
//! expand along the region's catalog order in the direction written.
//! Indices are 1-based catalog positions; each one is kept once, at its
//! first appearance.
use crate::app::{AppError, AppErrorView};
use crate::bands::{self, Band, ITURegion, BAND_COUNT};
use crate::text;
use vstd::prelude::*;

verus! {

// ---------------------------------------------------------------------------
// Specification
// ---------------------------------------------------------------------------

/// The first position of `c` in `s`.
pub open spec fn find_char(s: Seq<char>, c: char) -> Option<int>
    decreases s.len(),
{
    if s.len() == 0 {
        None
    } else if s[0] == c {
        Some(0)
    } else {
        match find_char(s.drop_first(), c) {
            Some(i) => Some(i + 1),
            None => None,
        }
    }
}

/// The pieces of `s` between occurrences of `c`, as `str::split(c)` yields them.
pub open spec fn split_on(s: Seq<char>, c: char) -> Seq<Seq<char>>
    decreases s.len(),
{
    if s.len() == 0 {
        seq![Seq::empty()]
    } else {
        let rest = split_on(s.drop_first(), c);
        if s[0] == c {
            seq![Seq::<char>::empty()] + rest
        } else {
            rest.update(0, seq![s[0]] + rest[0])
        }
    }
}

/// Whether a lower-cased key names a band: its full lower-cased name, or the
/// first word of it.
pub open spec fn alias_matches(b: Band, key: Seq<char>) -> bool {
    let full = text::lower(b.name@);
    full == key || text::first_word(full) == Some(key)
}

/// The 1-based index that a key names among listed bands; where several
/// bands answer to the key, the last one listed wins.
pub open spec fn alias_lookup(entries: Seq<(usize, Band)>, key: Seq<char>) -> Option<usize>
    decreases entries.len(),
{
    if entries.len() == 0 {
        None
    } else if alias_matches(entries.last().1, key) {
        Some((entries.last().0 + 1) as usize)
    } else {
        alias_lookup(entries.drop_last(), key)
    }
}

/// What a single band token resolves to in a region.
pub open spec fn single_token_spec(token: Seq<char>, region: ITURegion) -> Result<
    usize,
    AppErrorView,
> {
    let t = text::trim(token);
    if t.len() == 0 {
        Err(AppErrorView::InvalidBandSelection("empty band token"@))
    } else {
        match alias_lookup(bands::region_bands(region), text::lower(t)) {
            Some(i) => Ok(i),
            None => Err(AppErrorView::InvalidBandSelection("unknown band '"@ + t + "'."@)),
        }
    }
}

/// The 1-based indices of the region's bands, in catalog order.
pub open spec fn ordered_spec(region: ITURegion) -> Seq<usize> {
    bands::region_bands(region).map_values(|e: (usize, Band)| (e.0 + 1) as usize)
}

/// The first position of `x` in `s`.
pub open spec fn position_of(s: Seq<usize>, x: usize) -> Option<int>
    decreases s.len(),
{
    if s.len() == 0 {
        None
    } else if s[0] == x {
        Some(0)
    } else {
        match position_of(s.drop_first(), x) {
            Some(i) => Some(i + 1),
            None => None,
        }
    }
}

/// The stretch of `ordered` from position `from` to position `to`, both
/// included, walked in that direction.
pub open spec fn range_indices(ordered: Seq<usize>, from: int, to: int) -> Seq<usize> {
    if from <= to {
        ordered.subrange(from, to + 1)
    } else {
        ordered.subrange(to, from + 1).reverse()
    }
}

/// The indices one comma-separated token contributes, in order, before
/// duplicates are dropped.
pub open spec fn token_spec(token: Seq<char>, region: ITURegion) -> Result<
    Seq<usize>,
    AppErrorView,
> {
    let t = text::trim(token);
    if t.len() == 0 {
        Ok(Seq::empty())
    } else {
        match find_char(t, '-') {
            Some(d) => {
                let a = text::trim(t.subrange(0, d));
                let b = text::trim(t.subrange(d + 1, t.len() as int));
                match single_token_spec(a, region) {
                    Err(e) => Err(e),
                    Ok(sa) => match single_token_spec(b, region) {
                        Err(e) => Err(e),
                        Ok(sb) => {
                            let ord = ordered_spec(region);
                            match position_of(ord, sa) {
                                None => Err(
                                    AppErrorView::InvalidBandSelection(
                                        "unknown range start '"@ + a + "'."@,
                                    ),
                                ),
                                Some(pa) => match position_of(ord, sb) {
                                    None => Err(
                                        AppErrorView::InvalidBandSelection(
                                            "unknown range end '"@ + b + "'."@,
                                        ),
                                    ),
                                    Some(pb) => Ok(range_indices(ord, pa, pb)),
                                },
                            }
                        },
                    },
                }
            },
            None => match single_token_spec(t, region) {
                Ok(i) => Ok(seq![i]),
                Err(e) => Err(e),
            },
        }
    }
}

/// `parsed` extended by the members of `new` it does not hold yet, in order.
pub open spec fn add_unique(parsed: Seq<usize>, new: Seq<usize>) -> Seq<usize>
    decreases new.len(),
{
    if new.len() == 0 {
        parsed
    } else {
        let next = if parsed.contains(new[0]) {
            parsed
        } else {
            parsed.push(new[0])
        };
        add_unique(next, new.drop_first())
    }
}

/// Tokens processed left to right; the first error stops the walk.
pub open spec fn fold_tokens(
    acc: Result<Seq<usize>, AppErrorView>,
    toks: Seq<Seq<char>>,
    region: ITURegion,
) -> Result<Seq<usize>, AppErrorView>
    decreases toks.len(),
{
    if toks.len() == 0 {
        acc
    } else {
        match acc {
            Err(e) => Err(e),
            Ok(p) => match token_spec(toks[0], region) {
                Err(e) => Err(e),
                Ok(ix) => fold_tokens(Ok(add_unique(p, ix)), toks.drop_first(), region),
            },
        }
    }
}

/// What a band selection resolves to in a region: the indices of all
/// tokens, duplicates dropped, or the first token's error, or the empty
/// selection error when nothing was named.
pub open spec fn parse_selection_spec(s: Seq<char>, region: ITURegion) -> Result<
    Seq<usize>,
    AppErrorView,
> {
    match fold_tokens(Ok(Seq::empty()), split_on(s, ','), region) {
        Err(e) => Err(e),
        Ok(p) => if p.len() == 0 {
            Err(AppErrorView::EmptyBandSelection)
        } else {
            Ok(p)
        },
    }
}

// ---------------------------------------------------------------------------
// Lemmas
// ---------------------------------------------------------------------------

proof fn lemma_find_char_first(s: Seq<char>, c: char, i: int)
    requires
        0 <= i < s.len(),
        s[i] == c,
        forall|k: int| 0 <= k < i ==> s[k] != c,
    ensures
        find_char(s, c) == Some(i),
    decreases i,
{
    if i > 0 {
        lemma_find_char_first(s.drop_first(), c, i - 1);
    }
}

proof fn lemma_find_char_none(s: Seq<char>, c: char)
    requires
        forall|k: int| 0 <= k < s.len() ==> s[k] != c,
    ensures
        find_char(s, c) is None,
    decreases s.len(),
{
    if s.len() > 0 {
        lemma_find_char_none(s.drop_first(), c);
    }
}

proof fn lemma_find_char_some(s: Seq<char>, c: char)
    ensures
        find_char(s, c) matches Some(i) ==> 0 <= i < s.len() && s[i] == c && forall|k: int|
            0 <= k < i ==> s[k] != c,
        find_char(s, c) is None ==> forall|k: int| 0 <= k < s.len() ==> s[k] != c,
    decreases s.len(),
{
    if s.len() > 0 {
        lemma_find_char_some(s.drop_first(), c);
        if s[0] != c {
            assert forall|k: int| 1 <= k < s.len() implies s[k] == s.drop_first()[k - 1] by {}
        }
    }
}

proof fn lemma_split_first_piece(s: Seq<char>, c: char, q: int)
    requires
        0 <= q <= s.len(),
        forall|k: int| 0 <= k < q ==> s[k] != c,
        q < s.len() ==> s[q] == c,
    ensures
        q < s.len() ==> split_on(s, c) == seq![s.subrange(0, q)] + split_on(
            s.subrange(q + 1, s.len() as int),
            c,
        ),
        q == s.len() ==> split_on(s, c) == seq![s],
    decreases q,
{
    if q == 0 {
        if s.len() > 0 {
            assert(s.drop_first() =~= s.subrange(1, s.len() as int));
            assert(s.subrange(0, 0) =~= Seq::<char>::empty());
        } else {
            assert(s =~= Seq::<char>::empty());
        }
    } else {
        let t = s.drop_first();
        assert forall|k: int| 0 <= k < q - 1 implies t[k] != c by {
            assert(t[k] == s[k + 1]);
        }
        lemma_split_first_piece(t, c, q - 1);
        lemma_split_nonempty(t, c);
        if q < s.len() {
            assert(t.subrange(q, t.len() as int) =~= s.subrange(q + 1, s.len() as int));
            assert(seq![s[0]] + t.subrange(0, q - 1) =~= s.subrange(0, q));
            let rest = split_on(t, c);
            assert(split_on(s, c) =~= rest.update(0, seq![s[0]] + rest[0]));
            assert(split_on(s, c) =~= seq![s.subrange(0, q)] + split_on(
                s.subrange(q + 1, s.len() as int),
                c,
            ));
        } else {
            assert(seq![s[0]] + t =~= s);
            let rest = split_on(t, c);
            assert(split_on(s, c) =~= seq![s]);
        }
    }
}

pub proof fn lemma_split_nonempty(s: Seq<char>, c: char)
    ensures
        split_on(s, c).len() >= 1,
    decreases s.len(),
{
    if s.len() > 0 {
        lemma_split_nonempty(s.drop_first(), c);
    }
}

proof fn lemma_position_first(s: Seq<usize>, x: usize, i: int)
    requires
        0 <= i < s.len(),
        s[i] == x,
        forall|k: int| 0 <= k < i ==> s[k] != x,
    ensures
        position_of(s, x) == Some(i),
    decreases i,
{
    if i > 0 {
        lemma_position_first(s.drop_first(), x, i - 1);
    }
}

proof fn lemma_position_none(s: Seq<usize>, x: usize)
    requires
        forall|k: int| 0 <= k < s.len() ==> s[k] != x,
    ensures
        position_of(s, x) is None,
    decreases s.len(),
{
    if s.len() > 0 {
        lemma_position_none(s.drop_first(), x);
    }
}

proof fn lemma_position_bounds(s: Seq<usize>, x: usize)
    ensures
        position_of(s, x) matches Some(i) ==> 0 <= i < s.len() && s[i] == x,
    decreases s.len(),
{
    if s.len() > 0 {
        lemma_position_bounds(s.drop_first(), x);
    }
}

proof fn lemma_ordered(region: ITURegion)
    ensures
        ordered_spec(region).len() == BAND_COUNT,
        forall|k: int|
            0 <= k < BAND_COUNT ==> #[trigger] ordered_spec(region)[k] == (k + 1) as usize,
{
    bands::lemma_region_bands(region);
}

proof fn lemma_alias_lookup_bound(entries: Seq<(usize, Band)>, key: Seq<char>)
    requires
        forall|k: int| 0 <= k < entries.len() ==> (#[trigger] entries[k]).0 < BAND_COUNT,
    ensures
        alias_lookup(entries, key) matches Some(i) ==> 1 <= i <= BAND_COUNT,
    decreases entries.len(),
{
    if entries.len() > 0 {
        assert(entries.last() == entries[entries.len() - 1]);
        lemma_alias_lookup_bound(entries.drop_last(), key);
    }
}

/// A resolved single token names a band of the catalog (1-based).
pub proof fn lemma_single_token_in_catalog(token: Seq<char>, region: ITURegion)
    ensures
        single_token_spec(token, region) matches Ok(i) ==> 1 <= i <= BAND_COUNT,
{
    bands::lemma_region_bands(region);
    let entries = bands::region_bands(region);
    assert forall|k: int| 0 <= k < entries.len() implies (#[trigger] entries[k]).0 < BAND_COUNT by {}
    lemma_alias_lookup_bound(entries, text::lower(text::trim(token)));
}

/// Every index a token contributes names a band of the catalog (1-based).
pub proof fn lemma_token_in_catalog(token: Seq<char>, region: ITURegion)
    ensures
        token_spec(token, region) matches Ok(ix) ==> forall|k: int|
            0 <= k < ix.len() ==> 1 <= #[trigger] ix[k] <= BAND_COUNT,
{
    let t = text::trim(token);
    lemma_ordered(region);
    lemma_single_token_in_catalog(t, region);
    if t.len() > 0 {
        match find_char(t, '-') {
            Some(d) => {
                lemma_find_char_some(t, '-');
                let a = text::trim(t.subrange(0, d));
                let b = text::trim(t.subrange(d + 1, t.len() as int));
                lemma_single_token_in_catalog(a, region);
                lemma_single_token_in_catalog(b, region);
                let ord = ordered_spec(region);
                if let Ok(sa) = single_token_spec(a, region) {
                    if let Ok(sb) = single_token_spec(b, region) {
                        lemma_position_bounds(ord, sa);
                        lemma_position_bounds(ord, sb);
                        if let Some(pa) = position_of(ord, sa) {
                            if let Some(pb) = position_of(ord, sb) {
                                let ix = range_indices(ord, pa, pb);
                                if pa <= pb {
                                    assert forall|k: int| 0 <= k < ix.len() implies 1 <= #[trigger] ix[k]
                                        <= BAND_COUNT by {
                                        assert(ix[k] == ord[pa + k]);
                                    }
                                } else {
                                    let sub = ord.subrange(pb, pa + 1);
                                    assert forall|k: int| 0 <= k < ix.len() implies 1 <= #[trigger] ix[k]
                                        <= BAND_COUNT by {
                                        assert(ix[k] == sub[sub.len() - 1 - k]);
                                        assert(sub[sub.len() - 1 - k] == ord[pb + (sub.len() - 1
                                            - k)]);
                                    }
                                }
                            }
                        }
                    }
                }
            },
            None => {},
        }
    }
}

proof fn lemma_add_unique(parsed: Seq<usize>, new: Seq<usize>)
    requires
        parsed.no_duplicates(),
        forall|k: int| 0 <= k < parsed.len() ==> 1 <= #[trigger] parsed[k] <= BAND_COUNT,
        forall|k: int| 0 <= k < new.len() ==> 1 <= #[trigger] new[k] <= BAND_COUNT,
    ensures
        add_unique(parsed, new).no_duplicates(),
        forall|k: int|
            0 <= k < add_unique(parsed, new).len() ==> 1 <= #[trigger] add_unique(parsed, new)[k]
                <= BAND_COUNT,
        forall|x: usize| parsed.contains(x) ==> add_unique(parsed, new).contains(x),
        forall|k: int| 0 <= k < new.len() ==> add_unique(parsed, new).contains(#[trigger] new[k]),
    decreases new.len(),
{
    if new.len() > 0 {
        let next = if parsed.contains(new[0]) {
            parsed
        } else {
            parsed.push(new[0])
        };
        assert(next.no_duplicates()) by {
            if !parsed.contains(new[0]) {
                assert forall|i: int, j: int|
                    0 <= i < next.len() && 0 <= j < next.len() && i != j implies next[i]
                    != next[j] by {
                    if i == parsed.len() as int {
                        assert(next[j] == parsed[j]);
                        if parsed[j] == new[0] {
                            assert(parsed.contains(new[0]));
                        }
                    } else if j == parsed.len() as int {
                        assert(next[i] == parsed[i]);
                        if parsed[i] == new[0] {
                            assert(parsed.contains(new[0]));
                        }
                    } else {
                        assert(next[i] == parsed[i] && next[j] == parsed[j]);
                    }
                }
            }
        }
        assert forall|x: usize| parsed.contains(x) implies next.contains(x) by {
            let k = choose|k: int| 0 <= k < parsed.len() && parsed[k] == x;
            assert(next[k] == x);
        }
        assert(next.contains(new[0])) by {
            if !parsed.contains(new[0]) {
                assert(next[parsed.len() as int] == new[0]);
            }
        }
        let rest = new.drop_first();
        assert forall|k: int| 0 <= k < rest.len() implies 1 <= #[trigger] rest[k] <= BAND_COUNT by {
            assert(rest[k] == new[k + 1]);
        }
        lemma_add_unique(next, rest);
        assert forall|k: int| 0 <= k < new.len() implies add_unique(parsed, new).contains(
            #[trigger] new[k],
        ) by {
            if k > 0 {
                assert(rest[k - 1] == new[k]);
            }
        }
    }
}

proof fn lemma_fold_tokens(
    acc: Result<Seq<usize>, AppErrorView>,
    toks: Seq<Seq<char>>,
    region: ITURegion,
)
    requires
        acc matches Ok(p) ==> p.no_duplicates() && forall|k: int|
            0 <= k < p.len() ==> 1 <= #[trigger] p[k] <= BAND_COUNT,
    ensures
        fold_tokens(acc, toks, region) matches Ok(p) ==> p.no_duplicates() && forall|k: int|
            0 <= k < p.len() ==> 1 <= #[trigger] p[k] <= BAND_COUNT,
    decreases toks.len(),
{
    if toks.len() > 0 {
        if let Ok(p) = acc {
            lemma_token_in_catalog(toks[0], region);
            if let Ok(ix) = token_spec(toks[0], region) {
                lemma_add_unique(p, ix);
                lemma_fold_tokens(Ok(add_unique(p, ix)), toks.drop_first(), region);
            }
        }
    }
}

/// A resolved band selection names each band at most once, and only bands
/// of the catalog, by their 1-based index.
pub proof fn lemma_selection_unique_and_in_catalog(s: Seq<char>, region: ITURegion)
    ensures
        parse_selection_spec(s, region) matches Ok(v) ==> v.len() > 0 && v.no_duplicates()
            && forall|k: int| 0 <= k < v.len() ==> 1 <= #[trigger] v[k] <= BAND_COUNT,
{
    lemma_fold_tokens(Ok(Seq::empty()), split_on(s, ','), region);
}

/// The short label of each catalog band (0-based): the first word of its
/// name.
pub open spec fn catalog_label(k: int) -> Seq<char> {
    if k == 0 {
        "160m"@
    } else if k == 1 {
        "80m"@
    } else if k == 2 {
        "60m"@
    } else if k == 3 {
        "40m"@
    } else if k == 4 {
        "30m"@
    } else if k == 5 {
        "20m"@
    } else if k == 6 {
        "17m"@
    } else if k == 7 {
        "15m"@
    } else if k == 8 {
        "12m"@
    } else if k == 9 {
        "10m"@
    } else if k == 10 {
        "120m"@
    } else if k == 11 {
        "90m"@
    } else if k == 12 {
        "75m"@
    } else if k == 13 {
        "49m"@
    } else if k == 14 {
        "41m"@
    } else if k == 15 {
        "31m"@
    } else if k == 16 {
        "25m"@
    } else if k == 17 {
        "22m"@
    } else if k == 18 {
        "19m"@
    } else if k == 19 {
        "16m"@
    } else {
        "13m"@
    }
}

proof fn lemma_catalog_label(k: int)
    requires
        0 <= k < BAND_COUNT,
    ensures
        text::first_word(bands::catalog(k).name@) == Some(catalog_label(k)),
        text::first_word(text::lower(bands::catalog(k).name@)) == Some(catalog_label(k)),
        text::lower(bands::catalog(k).name@) == catalog_label(k) || text::lower(
            bands::catalog(k).name@,
        ).len() > 4,
        0 < catalog_label(k).len() <= 4,
        text::lower(catalog_label(k)) == catalog_label(k),
        forall|i: int| 0 <= i < catalog_label(k).len() ==> !text::is_ws(#[trigger] catalog_label(k)[i]),
        forall|i: int|
            0 <= i < catalog_label(k).len() ==> ('0' <= #[trigger] catalog_label(k)[i] <= '9'
                || catalog_label(k)[i] == 'm'),
{
    if k == 0 {
        reveal_strlit("160m");
        let s = "160m"@;
        text::lemma_lower_fixed(s);
        text::lemma_first_word_prefix(s, s.len() as int);
        assert(s.subrange(0, s.len() as int) =~= s);
    } else if k == 1 {
        reveal_strlit("80m");
        let s = "80m"@;
        text::lemma_lower_fixed(s);
        text::lemma_first_word_prefix(s, s.len() as int);
        assert(s.subrange(0, s.len() as int) =~= s);
    } else if k == 2 {
        reveal_strlit("60m");
        let s = "60m"@;
        text::lemma_lower_fixed(s);
        text::lemma_first_word_prefix(s, s.len() as int);
        assert(s.subrange(0, s.len() as int) =~= s);
    } else if k == 3 {
        reveal_strlit("40m");
        let s = "40m"@;
        text::lemma_lower_fixed(s);
        text::lemma_first_word_prefix(s, s.len() as int);
        assert(s.subrange(0, s.len() as int) =~= s);
    } else if k == 4 {
        reveal_strlit("30m");
        let s = "30m"@;
        text::lemma_lower_fixed(s);
        text::lemma_first_word_prefix(s, s.len() as int);
        assert(s.subrange(0, s.len() as int) =~= s);
    } else if k == 5 {
        reveal_strlit("20m");
        let s = "20m"@;
        text::lemma_lower_fixed(s);
        text::lemma_first_word_prefix(s, s.len() as int);
        assert(s.subrange(0, s.len() as int) =~= s);
    } else if k == 6 {
        reveal_strlit("17m");
        let s = "17m"@;
        text::lemma_lower_fixed(s);
        text::lemma_first_word_prefix(s, s.len() as int);
        assert(s.subrange(0, s.len() as int) =~= s);
    } else if k == 7 {
        reveal_strlit("15m");
        let s = "15m"@;
        text::lemma_lower_fixed(s);
        text::lemma_first_word_prefix(s, s.len() as int);
        assert(s.subrange(0, s.len() as int) =~= s);
    } else if k == 8 {
        reveal_strlit("12m");
        let s = "12m"@;
        text::lemma_lower_fixed(s);
        text::lemma_first_word_prefix(s, s.len() as int);
        assert(s.subrange(0, s.len() as int) =~= s);
    } else if k == 9 {
        reveal_strlit("10m");
        let s = "10m"@;
        text::lemma_lower_fixed(s);
        text::lemma_first_word_prefix(s, s.len() as int);
        assert(s.subrange(0, s.len() as int) =~= s);
    } else if k == 10 {
        reveal_strlit("120m SW (2.3-2.495 MHz)");
        reveal_strlit("120m");
        let s = "120m SW (2.3-2.495 MHz)"@;
        let w = "120m"@;
        let l = text::lower(s);
        text::lemma_first_word_prefix(s, w.len() as int);
        assert(s.subrange(0, w.len() as int) =~= w);
        text::lemma_first_word_prefix(l, w.len() as int);
        assert(l.subrange(0, w.len() as int) =~= w);
        text::lemma_lower_fixed(w);
    } else if k == 11 {
        reveal_strlit("90m SW (3.2-3.4 MHz)");
        reveal_strlit("90m");
        let s = "90m SW (3.2-3.4 MHz)"@;
        let w = "90m"@;
        let l = text::lower(s);
        text::lemma_first_word_prefix(s, w.len() as int);
        assert(s.subrange(0, w.len() as int) =~= w);
        text::lemma_first_word_prefix(l, w.len() as int);
        assert(l.subrange(0, w.len() as int) =~= w);
        text::lemma_lower_fixed(w);
    } else if k == 12 {
        reveal_strlit("75m SW (3.9-4.0 MHz)");
        reveal_strlit("75m");
        let s = "75m SW (3.9-4.0 MHz)"@;
        let w = "75m"@;
        let l = text::lower(s);
        text::lemma_first_word_prefix(s, w.len() as int);
        assert(s.subrange(0, w.len() as int) =~= w);
        text::lemma_first_word_prefix(l, w.len() as int);
        assert(l.subrange(0, w.len() as int) =~= w);
        text::lemma_lower_fixed(w);
    } else if k == 13 {
        reveal_strlit("49m SW (5.9-6.2 MHz)");
        reveal_strlit("49m");
        let s = "49m SW (5.9-6.2 MHz)"@;
        let w = "49m"@;
        let l = text::lower(s);
        text::lemma_first_word_prefix(s, w.len() as int);
        assert(s.subrange(0, w.len() as int) =~= w);
        text::lemma_first_word_prefix(l, w.len() as int);
        assert(l.subrange(0, w.len() as int) =~= w);
        text::lemma_lower_fixed(w);
    } else if k == 14 {
        reveal_strlit("41m SW (7.2-7.45 MHz)");
        reveal_strlit("41m");
        let s = "41m SW (7.2-7.45 MHz)"@;
        let w = "41m"@;
        let l = text::lower(s);
        text::lemma_first_word_prefix(s, w.len() as int);
        assert(s.subrange(0, w.len() as int) =~= w);
        text::lemma_first_word_prefix(l, w.len() as int);
        assert(l.subrange(0, w.len() as int) =~= w);
        text::lemma_lower_fixed(w);
    } else if k == 15 {
        reveal_strlit("31m SW (9.4-9.9 MHz)");
        reveal_strlit("31m");
        let s = "31m SW (9.4-9.9 MHz)"@;
        let w = "31m"@;
        let l = text::lower(s);
        text::lemma_first_word_prefix(s, w.len() as int);
        assert(s.subrange(0, w.len() as int) =~= w);
        text::lemma_first_word_prefix(l, w.len() as int);
        assert(l.subrange(0, w.len() as int) =~= w);
        text::lemma_lower_fixed(w);
    } else if k == 16 {
        reveal_strlit("25m SW (11.6-12.1 MHz)");
        reveal_strlit("25m");
        let s = "25m SW (11.6-12.1 MHz)"@;
        let w = "25m"@;
        let l = text::lower(s);
        text::lemma_first_word_prefix(s, w.len() as int);
        assert(s.subrange(0, w.len() as int) =~= w);
        text::lemma_first_word_prefix(l, w.len() as int);
        assert(l.subrange(0, w.len() as int) =~= w);
        text::lemma_lower_fixed(w);
    } else if k == 17 {
        reveal_strlit("22m SW (13.57-13.87 MHz)");
        reveal_strlit("22m");
        let s = "22m SW (13.57-13.87 MHz)"@;
        let w = "22m"@;
        let l = text::lower(s);
        text::lemma_first_word_prefix(s, w.len() as int);
        assert(s.subrange(0, w.len() as int) =~= w);
        text::lemma_first_word_prefix(l, w.len() as int);
        assert(l.subrange(0, w.len() as int) =~= w);
        text::lemma_lower_fixed(w);
    } else if k == 18 {
        reveal_strlit("19m SW (15.1-15.8 MHz)");
        reveal_strlit("19m");
        let s = "19m SW (15.1-15.8 MHz)"@;
        let w = "19m"@;
        let l = text::lower(s);
        text::lemma_first_word_prefix(s, w.len() as int);
        assert(s.subrange(0, w.len() as int) =~= w);
        text::lemma_first_word_prefix(l, w.len() as int);
        assert(l.subrange(0, w.len() as int) =~= w);
        text::lemma_lower_fixed(w);
    } else if k == 19 {
        reveal_strlit("16m SW (17.48-17.9 MHz)");
        reveal_strlit("16m");
        let s = "16m SW (17.48-17.9 MHz)"@;
        let w = "16m"@;
        let l = text::lower(s);
        text::lemma_first_word_prefix(s, w.len() as int);
        assert(s.subrange(0, w.len() as int) =~= w);
        text::lemma_first_word_prefix(l, w.len() as int);
        assert(l.subrange(0, w.len() as int) =~= w);
        text::lemma_lower_fixed(w);
    } else {
        reveal_strlit("13m SW (21.45-21.85 MHz)");
        reveal_strlit("13m");
        let s = "13m SW (21.45-21.85 MHz)"@;
        let w = "13m"@;
        let l = text::lower(s);
        text::lemma_first_word_prefix(s, w.len() as int);
        assert(s.subrange(0, w.len() as int) =~= w);
        text::lemma_first_word_prefix(l, w.len() as int);
        assert(l.subrange(0, w.len() as int) =~= w);
        text::lemma_lower_fixed(w);
    }
}

/// The band number a short label names ("160m" is 160).
spec fn label_value(w: Seq<char>) -> int {
    if w.len() == 4 {
        (w[0] as int - '0' as int) * 100 + (w[1] as int - '0' as int) * 10 + (w[2] as int
            - '0' as int)
    } else {
        (w[0] as int - '0' as int) * 10 + (w[1] as int - '0' as int)
    }
}

/// The band number of each catalog label.
spec fn label_number(k: int) -> int {
    if k == 0 {
        160
    } else if k == 1 {
        80
    } else if k == 2 {
        60
    } else if k == 3 {
        40
    } else if k == 4 {
        30
    } else if k == 5 {
        20
    } else if k == 6 {
        17
    } else if k == 7 {
        15
    } else if k == 8 {
        12
    } else if k == 9 {
        10
    } else if k == 10 {
        120
    } else if k == 11 {
        90
    } else if k == 12 {
        75
    } else if k == 13 {
        49
    } else if k == 14 {
        41
    } else if k == 15 {
        31
    } else if k == 16 {
        25
    } else if k == 17 {
        22
    } else if k == 18 {
        19
    } else if k == 19 {
        16
    } else {
        13
    }
}

proof fn lemma_label_numbers_distinct(j: int, k: int)
    requires
        0 <= j < BAND_COUNT,
        0 <= k < BAND_COUNT,
        j != k,
    ensures
        label_number(j) != label_number(k),
{
}

proof fn lemma_label_value(k: int)
    requires
        0 <= k < BAND_COUNT,
    ensures
        label_value(catalog_label(k)) == label_number(k),
{
    reveal_strlit("160m");
    reveal_strlit("80m");
    reveal_strlit("60m");
    reveal_strlit("40m");
    reveal_strlit("30m");
    reveal_strlit("20m");
    reveal_strlit("17m");
    reveal_strlit("15m");
    reveal_strlit("12m");
    reveal_strlit("10m");
    reveal_strlit("120m");
    reveal_strlit("90m");
    reveal_strlit("75m");
    reveal_strlit("49m");
    reveal_strlit("41m");
    reveal_strlit("31m");
    reveal_strlit("25m");
    reveal_strlit("22m");
    reveal_strlit("19m");
    reveal_strlit("16m");
    reveal_strlit("13m");
}

proof fn lemma_catalog_labels_distinct(j: int, k: int)
    requires
        0 <= j < BAND_COUNT,
        0 <= k < BAND_COUNT,
        j != k,
    ensures
        catalog_label(j) != catalog_label(k),
{
    lemma_label_value(j);
    lemma_label_value(k);
    lemma_label_numbers_distinct(j, k);
}

proof fn lemma_alias_lookup_last_match(entries: Seq<(usize, Band)>, key: Seq<char>, k: int)
    requires
        0 <= k < entries.len(),
        alias_matches(entries[k].1, key),
        forall|j: int| k < j < entries.len() ==> !alias_matches(#[trigger] entries[j].1, key),
    ensures
        alias_lookup(entries, key) == Some((entries[k].0 + 1) as usize),
    decreases entries.len(),
{
    if k < entries.len() - 1 {
        assert(!alias_matches(entries[entries.len() - 1].1, key));
        lemma_alias_lookup_last_match(entries.drop_last(), key, k);
    }
}

/// Every band's short label resolves back to that band: the label the
/// program prints for a band index names that same index when read back.
pub proof fn lemma_label_resolves_to_band(index: usize, region: ITURegion)
    requires
        1 <= index <= BAND_COUNT,
    ensures
        single_token_spec(label_spec(index, region), region) == Ok::<usize, AppErrorView>(index),
        label_spec(index, region) == catalog_label(index - 1),
{
    let entries = bands::region_bands(region);
    bands::lemma_region_bands(region);
    let k = index - 1;
    assert forall|j: int| 0 <= j < k implies entries[j].0 != k by {}
    lemma_band_at_found(entries, k, k);
    lemma_catalog_label(k);
    let label = catalog_label(k);
    assert(entries[k].1.name == bands::catalog(k).name);
    assert(label_spec(index, region) == label);
    assert(!text::is_ws(label[0]));
    assert(!text::is_ws(label.last()));
    assert(text::trim_start(label) == label);
    assert(text::trim_end(label) == label);
    assert(text::trim(label) == label);
    assert forall|j: int| k < j < entries.len() implies !alias_matches(
        #[trigger] entries[j].1,
        label,
    ) by {
        lemma_catalog_label(j);
        lemma_catalog_labels_distinct(j, k);
        assert(entries[j].1.name == bands::catalog(j).name);
    }
    lemma_alias_lookup_last_match(entries, label, k);
}

proof fn lemma_split_join(parts: Seq<Seq<char>>, c: char)
    requires
        parts.len() > 0,
        forall|i: int, k: int| 0 <= i < parts.len() && 0 <= k < parts[i].len() ==> parts[i][k] != c,
    ensures
        split_on(text::join(parts, seq![c]), c) == parts,
    decreases parts.len(),
{
    let p0 = parts[0];
    assert forall|k: int| 0 <= k < p0.len() implies p0[k] != c by {}
    if parts.len() == 1 {
        lemma_split_first_piece(p0, c, p0.len() as int);
        assert(parts =~= seq![p0]);
    } else {
        text::lemma_join_front(parts, seq![c]);
        let rest = text::join(parts.drop_first(), seq![c]);
        let s = p0 + seq![c] + rest;
        let q = p0.len() as int;
        assert forall|k: int| 0 <= k < q implies s[k] != c by {
            assert(s[k] == p0[k]);
        }
        assert(s[q] == c);
        lemma_split_first_piece(s, c, q);
        assert(s.subrange(0, q) =~= p0);
        assert(s.subrange(q + 1, s.len() as int) =~= rest);
        assert forall|i: int, k: int|
            0 <= i < parts.drop_first().len() && 0 <= k < parts.drop_first()[i].len() implies parts.drop_first()[i][k]
            != c by {
            assert(parts.drop_first()[i] == parts[i + 1]);
        }
        lemma_split_join(parts.drop_first(), c);
        assert(seq![p0] + parts.drop_first() =~= parts);
    }
}

/// A band's short label, as a selection token, names just that band.
proof fn lemma_label_token(index: usize, region: ITURegion)
    requires
        1 <= index <= BAND_COUNT,
    ensures
        token_spec(label_spec(index, region), region) == Ok::<Seq<usize>, AppErrorView>(seq![index]),
        forall|k: int|
            0 <= k < label_spec(index, region).len() ==> #[trigger] label_spec(index, region)[k]
                != ',',
{
    lemma_label_resolves_to_band(index, region);
    let label = label_spec(index, region);
    lemma_catalog_label(index - 1);
    assert(label == catalog_label(index - 1));
    assert(!text::is_ws(label[0]));
    assert(!text::is_ws(label.last()));
    assert(text::trim(label) == label);
    assert forall|k: int| 0 <= k < label.len() implies label[k] != '-' by {
        assert('0' <= label[k] <= '9' || label[k] == 'm');
    }
    lemma_find_char_none(label, '-');
    assert forall|k: int| 0 <= k < label.len() implies #[trigger] label[k] != ',' by {
        assert('0' <= label[k] <= '9' || label[k] == 'm');
    }
}

proof fn lemma_fold_labels(done: Seq<usize>, rest: Seq<usize>, region: ITURegion)
    requires
        (done + rest).no_duplicates(),
        forall|k: int| 0 <= k < rest.len() ==> 1 <= #[trigger] rest[k] <= BAND_COUNT,
    ensures
        fold_tokens(
            Ok(done),
            rest.map_values(|i: usize| label_spec(i, region)),
            region,
        ) == Ok::<Seq<usize>, AppErrorView>(done + rest),
    decreases rest.len(),
{
    let toks = rest.map_values(|i: usize| label_spec(i, region));
    if rest.len() == 0 {
        assert(done + rest =~= done);
    } else {
        let x = rest[0];
        lemma_label_token(x, region);
        assert(toks[0] == label_spec(x, region));
        assert((done + rest)[done.len() as int] == x);
        assert(!done.contains(x)) by {
            if done.contains(x) {
                let j = choose|j: int| 0 <= j < done.len() && done[j] == x;
                assert((done + rest)[j] == x);
            }
        }
        assert(add_unique(done, seq![x]) == add_unique(done.push(x), seq![x].drop_first()));
        assert(seq![x].drop_first() =~= Seq::<usize>::empty());
        assert(toks.drop_first() =~= rest.drop_first().map_values(|i: usize| label_spec(i, region)));
        assert(done.push(x) + rest.drop_first() =~= done + rest);
        lemma_fold_labels(done.push(x), rest.drop_first(), region);
    }
}

/// Reading back the short labels of a selection, joined with ',', gives the
/// selection again: a selection that names each band once, all from the
/// catalog, survives the trip through the equivalent command line.
pub proof fn lemma_band_labels_round_trip(indices: Seq<usize>, region: ITURegion)
    requires
        indices.len() > 0,
        indices.no_duplicates(),
        forall|k: int| 0 <= k < indices.len() ==> 1 <= #[trigger] indices[k] <= BAND_COUNT,
    ensures
        parse_selection_spec(
            text::join(indices.map_values(|i: usize| label_spec(i, region)), seq![',']),
            region,
        ) == Ok::<Seq<usize>, AppErrorView>(indices),
{
    let labels = indices.map_values(|i: usize| label_spec(i, region));
    assert forall|i: int, k: int| 0 <= i < labels.len() && 0 <= k < labels[i].len() implies labels[i][k]
        != ',' by {
        lemma_label_token(indices[i], region);
        assert(labels[i] == label_spec(indices[i], region));
    }
    lemma_split_join(labels, ',');
    assert(Seq::<usize>::empty() + indices =~= indices);
    lemma_fold_labels(Seq::empty(), indices, region);
}

proof fn lemma_add_unique_grows(p: Seq<usize>, new: Seq<usize>)
    ensures
        add_unique(p, new).len() >= p.len(),
        new.len() > 0 ==> add_unique(p, new).len() > 0,
    decreases new.len(),
{
    if new.len() > 0 {
        let next = if p.contains(new[0]) {
            p
        } else {
            p.push(new[0])
        };
        if p.contains(new[0]) {
            let i = choose|i: int| 0 <= i < p.len() && p[i] == new[0];
            assert(p.len() > 0);
        }
        lemma_add_unique_grows(next, new.drop_first());
    }
}

proof fn lemma_token_shape(token: Seq<char>, region: ITURegion)
    ensures
        text::trim(token).len() == 0 ==> token_spec(token, region) == Ok::<
            Seq<usize>,
            AppErrorView,
        >(Seq::empty()),
        text::trim(token).len() > 0 ==> (token_spec(token, region) matches Ok(ix) ==> ix.len() > 0),
        token_spec(token, region) matches Err(e) ==> e is InvalidBandSelection,
{
    let t = text::trim(token);
    if t.len() > 0 {
        if let Some(d) = find_char(t, '-') {
            let a = text::trim(t.subrange(0, d));
            let b = text::trim(t.subrange(d + 1, t.len() as int));
            if let Ok(sa) = single_token_spec(a, region) {
                if let Ok(sb) = single_token_spec(b, region) {
                    let ord = ordered_spec(region);
                    lemma_position_bounds(ord, sa);
                    lemma_position_bounds(ord, sb);
                }
            }
        }
    }
}

proof fn lemma_fold_blank_tokens(p: Seq<usize>, toks: Seq<Seq<char>>, region: ITURegion)
    ensures
        (forall|k: int| 0 <= k < toks.len() ==> text::trim(#[trigger] toks[k]).len() == 0)
            ==> fold_tokens(Ok(p), toks, region) == Ok::<Seq<usize>, AppErrorView>(p),
        fold_tokens(Ok(p), toks, region) matches Ok(q) ==> q.len() >= p.len() && ((exists|k: int|
            0 <= k < toks.len() && text::trim(#[trigger] toks[k]).len() > 0) ==> q.len() > 0),
        fold_tokens(Ok(p), toks, region) matches Err(e) ==> e is InvalidBandSelection,
    decreases toks.len(),
{
    if toks.len() > 0 {
        lemma_token_shape(toks[0], region);
        let rest = toks.drop_first();
        if let Ok(ix) = token_spec(toks[0], region) {
            let next = add_unique(p, ix);
            lemma_add_unique_grows(p, ix);
            lemma_fold_blank_tokens(next, rest, region);
            if forall|k: int| 0 <= k < toks.len() ==> text::trim(#[trigger] toks[k]).len() == 0 {
                assert(text::trim(toks[0]).len() == 0);
                assert(ix =~= Seq::<usize>::empty());
                assert(next == p);
                assert forall|k: int| 0 <= k < rest.len() implies text::trim(
                    #[trigger] rest[k],
                ).len() == 0 by {
                    assert(rest[k] == toks[k + 1]);
                }
            }
            if exists|k: int| 0 <= k < toks.len() && text::trim(#[trigger] toks[k]).len() > 0 {
                let k = choose|k: int| 0 <= k < toks.len() && text::trim(#[trigger] toks[k]).len() > 0;
                if k > 0 {
                    assert(rest[k - 1] == toks[k]);
                    assert(text::trim(rest[k - 1]).len() > 0);
                }
            }
        }
    }
}

/// A selection is refused as empty exactly when every comma-separated token
/// of it is blank.
pub proof fn lemma_empty_selection_iff_blank(s: Seq<char>, region: ITURegion)
    ensures
        parse_selection_spec(s, region) == Err::<Seq<usize>, AppErrorView>(
            AppErrorView::EmptyBandSelection,
        ) <==> forall|k: int|
            0 <= k < split_on(s, ',').len() ==> text::trim(#[trigger] split_on(s, ',')[k]).len()
                == 0,
{
    let toks = split_on(s, ',');
    lemma_fold_blank_tokens(Seq::empty(), toks, region);
    if !(forall|k: int| 0 <= k < toks.len() ==> text::trim(#[trigger] toks[k]).len() == 0) {
        let k = choose|k: int| !(0 <= k < toks.len() ==> text::trim(#[trigger] toks[k]).len() == 0);
        assert(text::trim(toks[k]).len() > 0);
    }
}

// ---------------------------------------------------------------------------
// Executable code
// ---------------------------------------------------------------------------

/// The 1-based index that a lower-cased key names among the region's bands
/// (full name or first word of it).
pub fn band_alias_to_index(region: ITURegion, key: &[char]) -> (r: Option<usize>)
    ensures
        r == alias_lookup(bands::region_bands(region), key@),
{
    let entries = bands::get_bands_for_region(region);
    proof {
        bands::lemma_region_bands(region);
    }
    let n = entries.len();
    let mut found: Option<usize> = None;
    let mut k: usize = 0;
    while k < n
        invariant
            k <= n,
            n == entries@.len(),
            entries@ == bands::region_bands(region),
            n == BAND_COUNT,
            forall|j: int| 0 <= j < n ==> (#[trigger] entries@[j]).0 == j,
            found == alias_lookup(entries@.subrange(0, k as int), key@),
        decreases n - k,
    {
        let (idx, band) = entries[k];
        let full = text::lower_chars(&text::chars_of(band.name));
        let mut matched = text::chars_eq(&full, key);
        if !matched {
            match text::first_word_chars(&full) {
                Some(w) => {
                    matched = text::chars_eq(&w, key);
                },
                None => {},
            }
        }
        proof {
            let pre = entries@.subrange(0, k as int);
            let post = entries@.subrange(0, k + 1);
            assert(post.drop_last() =~= pre);
            assert(post.last() == entries@[k as int]);
        }
        if matched {
            found = Some(idx + 1);
        }
        k = k + 1;
    }
    assert(entries@.subrange(0, n as int) =~= entries@);
    found
}

fn invalid_selection(prefix: &str, body: &[char]) -> (e: AppError)
    ensures
        e@ == AppErrorView::InvalidBandSelection(prefix@ + body@ + "'."@),
{
    let mut v: Vec<char> = Vec::new();
    text::push_str(&mut v, prefix);
    text::push_all(&mut v, body);
    text::push_str(&mut v, "'.");
    AppError::InvalidBandSelection(text::string_of(&v))
}

fn single_token_chars(token: &[char], region: ITURegion) -> (r: Result<usize, AppError>)
    ensures
        r matches Ok(i) ==> single_token_spec(token@, region) == Ok::<usize, AppErrorView>(i),
        r matches Err(e) ==> single_token_spec(token@, region) == Err::<usize, AppErrorView>(e@),
{
    let t = text::trim_chars(token);
    if t.len() == 0 {
        return Err(AppError::InvalidBandSelection(String::from_str("empty band token")));
    }
    let key = text::lower_chars(&t);
    match band_alias_to_index(region, &key) {
        Some(i) => Ok(i),
        None => Err(invalid_selection("unknown band '", &t)),
    }
}

/// Resolves one band name (full catalog name or its first word, ASCII case
/// and surrounding whitespace ignored) to its 1-based catalog index.
pub fn parse_single_band_token(token: &str, region: ITURegion) -> (r: Result<usize, AppError>)
    ensures
        r matches Ok(i) ==> single_token_spec(token@, region) == Ok::<usize, AppErrorView>(i),
        r matches Err(e) ==> single_token_spec(token@, region) == Err::<usize, AppErrorView>(e@),
{
    let cs = text::chars_of(token);
    single_token_chars(&cs, region)
}

/// The 1-based indices of the region's bands, in catalog order.
pub fn ordered_band_indices_for_region(region: ITURegion) -> (v: Vec<usize>)
    ensures
        v@ == ordered_spec(region),
{
    let entries = bands::get_bands_for_region(region);
    proof {
        bands::lemma_region_bands(region);
    }
    let n = entries.len();
    let mut v: Vec<usize> = Vec::new();
    let mut k: usize = 0;
    while k < n
        invariant
            k <= n,
            n == entries@.len(),
            n == BAND_COUNT,
            entries@ == bands::region_bands(region),
            forall|j: int| 0 <= j < n ==> (#[trigger] entries@[j]).0 == j,
            v@ =~= entries@.subrange(0, k as int).map_values(
                |e: (usize, Band)| (e.0 + 1) as usize,
            ),
        decreases n - k,
    {
        let (idx, _) = entries[k];
        v.push(idx + 1);
        k = k + 1;
        assert(v@ =~= entries@.subrange(0, k as int).map_values(
            |e: (usize, Band)| (e.0 + 1) as usize,
        ));
    }
    assert(entries@.subrange(0, n as int) =~= entries@);
    v
}

fn position_in(s: &[usize], x: usize) -> (r: Option<usize>)
    ensures
        r matches Some(i) ==> position_of(s@, x) == Some(i as int),
        r is None ==> position_of(s@, x) is None,
{
    let n = s.len();
    let mut i: usize = 0;
    while i < n
        invariant
            i <= n,
            n == s@.len(),
            forall|k: int| 0 <= k < i ==> s@[k] != x,
        decreases n - i,
    {
        if s[i] == x {
            proof {
                lemma_position_first(s@, x, i as int);
            }
            return Some(i);
        }
        i = i + 1;
    }
    proof {
        lemma_position_none(s@, x);
    }
    None
}

fn find_char_from(s: &[char], from: usize, c: char) -> (r: Option<usize>)
    requires
        from <= s@.len(),
    ensures
        r matches Some(q) ==> from <= q < s@.len() && s@[q as int] == c && forall|k: int|
            from <= k < q ==> s@[k] != c,
        r is None ==> forall|k: int| from <= k < s@.len() ==> s@[k] != c,
{
    let n = s.len();
    let mut i = from;
    while i < n
        invariant
            from <= i <= n,
            n == s@.len(),
            forall|k: int| from <= k < i ==> s@[k] != c,
        decreases n - i,
    {
        if s[i] == c {
            return Some(i);
        }
        i = i + 1;
    }
    None
}

fn token_indices(token: &[char], region: ITURegion) -> (r: Result<Vec<usize>, AppError>)
    ensures
        r matches Ok(v) ==> token_spec(token@, region) == Ok::<Seq<usize>, AppErrorView>(v@),
        r matches Err(e) ==> token_spec(token@, region) == Err::<Seq<usize>, AppErrorView>(e@),
{
    let t = text::trim_chars(token);
    if t.len() == 0 {
        return Ok(Vec::new());
    }
    match find_char_from(&t, 0, '-') {
        Some(d) => {
            proof {
                lemma_find_char_first(t@, '-', d as int);
            }
            let a = text::trim_chars(&text::slice_chars(&t, 0, d));
            let b = text::trim_chars(&text::slice_chars(&t, d + 1, t.len()));
            let sa = match single_token_chars(&a, region) {
                Ok(i) => i,
                Err(e) => return Err(e),
            };
            let sb = match single_token_chars(&b, region) {
                Ok(i) => i,
                Err(e) => return Err(e),
            };
            let ordered = ordered_band_indices_for_region(region);
            let pa = match position_in(&ordered, sa) {
                Some(p) => p,
                None => return Err(invalid_selection("unknown range start '", &a)),
            };
            let pb = match position_in(&ordered, sb) {
                Some(p) => p,
                None => return Err(invalid_selection("unknown range end '", &b)),
            };
            proof {
                lemma_position_bounds(ordered@, sa);
                lemma_position_bounds(ordered@, sb);
                lemma_ordered(region);
            }
            let mut out: Vec<usize> = Vec::new();
            if pa <= pb {
                let mut k = pa;
                while k <= pb
                    invariant
                        pa <= k <= pb + 1,
                        pb < ordered@.len(),
                        ordered@.len() == BAND_COUNT,
                        out@ =~= ordered@.subrange(pa as int, k as int),
                    decreases pb + 1 - k,
                {
                    out.push(ordered[k]);
                    k = k + 1;
                    assert(out@ =~= ordered@.subrange(pa as int, k as int));
                }
            } else {
                let mut k = pa + 1;
                while k > pb
                    invariant
                        pb <= k <= pa + 1,
                        pa < ordered@.len(),
                        out@ =~= ordered@.subrange(k as int, pa + 1).reverse(),
                    decreases k,
                {
                    k = k - 1;
                    out.push(ordered[k]);
                    assert(out@ =~= ordered@.subrange(k as int, pa + 1).reverse());
                }
            }
            Ok(out)
        },
        None => {
            proof {
                lemma_find_char_none(t@, '-');
            }
            match single_token_chars(&t, region) {
                Ok(i) => {
                    let mut out: Vec<usize> = Vec::new();
                    out.push(i);
                    assert(out@ =~= seq![i]);
                    Ok(out)
                },
                Err(e) => Err(e),
            }
        },
    }
}

fn add_unique_exec(parsed: &mut Vec<usize>, new: &[usize])
    ensures
        final(parsed)@ == add_unique(old(parsed)@, new@),
{
    let ghost goal = add_unique(parsed@, new@);
    let n = new.len();
    let mut i: usize = 0;
    assert(new@.subrange(0, n as int) =~= new@);
    while i < n
        invariant
            i <= n,
            n == new@.len(),
            goal == add_unique(parsed@, new@.subrange(i as int, n as int)),
        decreases n - i,
    {
        let x = new[i];
        let mut present = false;
        let m = parsed.len();
        let mut j: usize = 0;
        while j < m
            invariant
                j <= m,
                m == parsed@.len(),
                present == (exists|k: int| 0 <= k < j && parsed@[k] == x),
            decreases m - j,
        {
            if parsed[j] == x {
                present = true;
            }
            j = j + 1;
        }
        proof {
            let rest = new@.subrange(i as int, n as int);
            assert(rest.drop_first() =~= new@.subrange(i + 1, n as int));
            assert(rest[0] == x);
            if present {
                let k = choose|k: int| 0 <= k < m && parsed@[k] == x;
                assert(parsed@.contains(x));
            } else {
                assert(!parsed@.contains(x));
            }
        }
        if !present {
            parsed.push(x);
        }
        i = i + 1;
    }
    assert(new@.subrange(n as int, n as int) =~= Seq::<usize>::empty());
}

/// Resolves a comma-separated selection of band names and ranges
/// ("40m,20m,10m-15m") to 1-based catalog indices: each band once, at its
/// first appearance; a range expands along the catalog order in the
/// direction written.
pub fn parse_band_selection(selection: &str, region: ITURegion) -> (r: Result<Vec<usize>, AppError>)
    ensures
        r matches Ok(v) ==> parse_selection_spec(selection@, region) == Ok::<
            Seq<usize>,
            AppErrorView,
        >(v@),
        r matches Err(e) ==> parse_selection_spec(selection@, region) == Err::<
            Seq<usize>,
            AppErrorView,
        >(e@),
{
    let cs = text::chars_of(selection);
    let n = cs.len();
    let ghost goal = fold_tokens(Ok(Seq::empty()), split_on(cs@, ','), region);
    let mut parsed: Vec<usize> = Vec::new();
    let mut p: usize = 0;
    assert(cs@.subrange(0, n as int) =~= cs@);
    loop
        invariant_except_break
            goal == fold_tokens(
                Ok(parsed@),
                split_on(cs@.subrange(p as int, n as int), ','),
                region,
            ),
        invariant
            p <= n,
            n == cs@.len(),
            cs@ == selection@,
            goal == fold_tokens(Ok(Seq::empty()), split_on(cs@, ','), region),
        ensures
            goal == Ok::<Seq<usize>, AppErrorView>(parsed@),
        decreases n - p,
    {
        let q = find_char_from(&cs, p, ',');
        let end = match q {
            Some(q) => q,
            None => n,
        };
        let piece = text::slice_chars(&cs, p, end);
        let ghost s = cs@.subrange(p as int, n as int);
        let ghost toks = split_on(s, ',');
        let ghost rest = if end < n {
            split_on(cs@.subrange(end + 1, n as int), ',')
        } else {
            Seq::empty()
        };
        proof {
            assert forall|k: int| 0 <= k < end - p implies s[k] != ',' by {
                assert(s[k] == cs@[p + k]);
            }
            lemma_split_first_piece(s, ',', (end - p) as int);
            assert(s.subrange(0, (end - p) as int) =~= piece@);
            if end < n {
                assert(s.subrange((end - p) + 1, s.len() as int) =~= cs@.subrange(
                    end + 1,
                    n as int,
                ));
                assert(toks =~= seq![piece@] + rest);
            } else {
                assert(s =~= piece@);
                assert(toks =~= seq![piece@]);
            }
            assert(toks[0] == piece@);
            assert(toks.drop_first() =~= rest);
        }
        let ghost before = parsed@;
        match token_indices(&piece, region) {
            Ok(ix) => {
                add_unique_exec(&mut parsed, &ix);
            },
            Err(e) => {
                assert(toks.len() > 0);
                assert(fold_tokens(Ok(before), toks, region) == Err::<Seq<usize>, AppErrorView>(
                    e@,
                ));
                return Err(e);
            },
        }
        match q {
            Some(q) => {
                p = q + 1;
            },
            None => {
                assert(fold_tokens(Ok(parsed@), rest, region) == Ok::<Seq<usize>, AppErrorView>(
                    parsed@,
                ));
                break ;
            },
        }
    }
    if parsed.len() == 0 {
        return Err(AppError::EmptyBandSelection);
    }
    Ok(parsed)
}


// ---------------------------------------------------------------------------
// Band labels
// ---------------------------------------------------------------------------

/// The first listed band with 0-based catalog index `idx`.
pub open spec fn band_at(entries: Seq<(usize, Band)>, idx: int) -> Option<Band>
    decreases entries.len(),
{
    if entries.len() == 0 {
        None
    } else if entries[0].0 == idx {
        Some(entries[0].1)
    } else {
        band_at(entries.drop_first(), idx)
    }
}

/// The short label of a 1-based band index in a region: the first word of
/// the band's name, or the number itself when no band has that index.
pub open spec fn label_spec(index: usize, region: ITURegion) -> Seq<char> {
    if index == 0 {
        text::decimal(0)
    } else {
        match band_at(bands::region_bands(region), index - 1) {
            Some(b) => match text::first_word(b.name@) {
                Some(w) => w,
                None => b.name@,
            },
            None => text::decimal(index as nat),
        }
    }
}

proof fn lemma_band_at_found(entries: Seq<(usize, Band)>, idx: int, k: int)
    requires
        0 <= k < entries.len(),
        entries[k].0 == idx,
        forall|j: int| 0 <= j < k ==> entries[j].0 != idx,
    ensures
        band_at(entries, idx) == Some(entries[k].1),
    decreases k,
{
    if k > 0 {
        lemma_band_at_found(entries.drop_first(), idx, k - 1);
    }
}

proof fn lemma_band_at_none(entries: Seq<(usize, Band)>, idx: int)
    requires
        forall|j: int| 0 <= j < entries.len() ==> entries[j].0 != idx,
    ensures
        band_at(entries, idx) is None,
    decreases entries.len(),
{
    if entries.len() > 0 {
        lemma_band_at_none(entries.drop_first(), idx);
    }
}

/// The short label ("40m", "120m", ...) of a 1-based band index in a
/// region; the number itself when no band has that index.
pub fn band_label_for_index(index: usize, region: ITURegion) -> (s: String)
    ensures
        s@ == label_spec(index, region),
{
    if index == 0 {
        return text::string_of(&text::decimal_chars(0));
    }
    let zero_based = index - 1;
    let entries = bands::get_bands_for_region(region);
    let n = entries.len();
    let mut k: usize = 0;
    while k < n
        invariant
            k <= n,
            n == entries@.len(),
            entries@ == bands::region_bands(region),
            zero_based == index - 1,
            forall|j: int| 0 <= j < k ==> entries@[j].0 != zero_based,
        decreases n - k,
    {
        let (idx, band) = entries[k];
        if idx == zero_based {
            proof {
                lemma_band_at_found(entries@, zero_based as int, k as int);
            }
            let name = text::chars_of(band.name);
            let label = match text::first_word_chars(&name) {
                Some(w) => w,
                None => name,
            };
            return text::string_of(&label);
        }
        k = k + 1;
    }
    proof {
        lemma_band_at_none(entries@, zero_based as int);
    }
    text::string_of(&text::decimal_chars(index as u64))
}

// ---------------------------------------------------------------------------
// Band listing
// ---------------------------------------------------------------------------

/// One row of the band listing.
#[derive(Debug, Clone)]
pub struct BandListingRow {
    /// 1-based display index.
    pub index: usize,
    /// Band description, e.g. "40m [HF] (7-7.2 MHz)".
    pub display: String,
}

/// A region's band listing.
#[derive(Debug, Clone)]
pub struct BandListingView {
    pub region_short_name: String,
    pub region_long_name: String,
    pub rows: Vec<BandListingRow>,
}

/// The rows of a listing as (index, text) pairs.
pub open spec fn rows_view(rows: Seq<BandListingRow>) -> Seq<(usize, Seq<char>)> {
    rows.map_values(|r: BandListingRow| (r.index, r.display@))
}

/// The rows listed for a region: each band with its 1-based index and
/// display text, in catalog order.
pub open spec fn listing_rows(region: ITURegion) -> Seq<(usize, Seq<char>)> {
    bands::region_bands(region).map_values(
        |e: (usize, Band)| ((e.0 + 1) as usize, bands::band_display(e.1)),
    )
}

/// The listing of a region's bands: names of the region and one row per
/// band, numbered from 1 in catalog order.
pub fn band_listing_view(region: ITURegion) -> (v: BandListingView)
    ensures
        v.region_short_name@ == bands::region_short(region),
        v.region_long_name@ == bands::region_long(region),
        rows_view(v.rows@) == listing_rows(region),
        forall|k: int| 0 <= k < v.rows@.len() ==> (#[trigger] v.rows@[k]).index == k + 1,
{
    let entries = bands::get_bands_for_region(region);
    proof {
        bands::lemma_region_bands(region);
    }
    let n = entries.len();
    let mut rows: Vec<BandListingRow> = Vec::new();
    let mut k: usize = 0;
    while k < n
        invariant
            k <= n,
            n == entries@.len(),
            n == BAND_COUNT,
            entries@ == bands::region_bands(region),
            forall|j: int| 0 <= j < n ==> (#[trigger] entries@[j]).0 == j,
            rows_view(rows@) =~= entries@.subrange(0, k as int).map_values(
                |e: (usize, Band)| ((e.0 + 1) as usize, bands::band_display(e.1)),
            ),
            rows@.len() == k,
            forall|j: int| 0 <= j < k ==> (#[trigger] rows@[j]).index == j + 1,
        decreases n - k,
    {
        let (idx, band) = entries[k];
        let display = band.to_display_string();
        let ghost old_rows = rows@;
        let ghost want = entries@.subrange(0, k + 1).map_values(
            |e: (usize, Band)| ((e.0 + 1) as usize, bands::band_display(e.1)),
        );
        rows.push(BandListingRow { index: idx + 1, display });
        proof {
            assert forall|j: int| 0 <= j < k + 1 implies #[trigger] rows_view(rows@)[j] == want[j] by {
                if j < k {
                    assert(rows@[j] == old_rows[j]);
                    assert(rows_view(old_rows)[j] == rows_view(rows@)[j]);
                }
            }
        }
        k = k + 1;
        assert(rows_view(rows@) =~= want);
    }
    assert(entries@.subrange(0, n as int) =~= entries@);
    let short = String::from_str(region.short_name());
    let long = String::from_str(region.long_name());
    BandListingView { region_short_name: short, region_long_name: long, rows }
}

/// The separator line under listing headers.
pub open spec fn rule_line() -> Seq<char> {
    "------------------------------------------------------------"@
}

/// The text line of one listing row: "{:2}. {display}".
pub open spec fn listing_row_line(row: (usize, Seq<char>)) -> Seq<char> {
    text::pad_left(text::decimal(row.0 as nat), 2) + ". "@ + row.1
}

/// The lines of a rendered listing.
pub open spec fn listing_lines(short: Seq<char>, long: Seq<char>, rows: Seq<(usize, Seq<char>)>) -> Seq<Seq<char>> {
    seq![
        Seq::<char>::empty(),
        "Available bands in Region "@ + short + " ("@ + text::decimal(rows.len()) + " total):"@,
        "  ("@ + long + ")"@,
        rule_line(),
    ] + rows.map_values(|r: (usize, Seq<char>)| listing_row_line(r)) + seq![Seq::<char>::empty()]
}

/// The view of a list of lines.
pub open spec fn lines_view(lines: Seq<String>) -> Seq<Seq<char>> {
    lines.map_values(|l: String| l@)
}

/// Renders a band listing to display lines: a blank line, the region
/// header with the band count, the long region name, a rule, one line per
/// row, and a closing blank line.
pub fn band_listing_display_lines(view: &BandListingView) -> (lines: Vec<String>)
    ensures
        lines_view(lines@) == listing_lines(
            view.region_short_name@,
            view.region_long_name@,
            rows_view(view.rows@),
        ),
{
    let ghost rows = rows_view(view.rows@);
    let mut lines: Vec<String> = Vec::new();
    lines.push(String::new());
    let mut header: Vec<char> = Vec::new();
    text::push_str(&mut header, "Available bands in Region ");
    text::push_str(&mut header, view.region_short_name.as_str());
    text::push_str(&mut header, " (");
    let count = text::decimal_chars(view.rows.len() as u64);
    text::push_all(&mut header, &count);
    text::push_str(&mut header, " total):");
    lines.push(text::string_of(&header));
    let mut long: Vec<char> = Vec::new();
    text::push_str(&mut long, "  (");
    text::push_str(&mut long, view.region_long_name.as_str());
    text::push_str(&mut long, ")");
    lines.push(text::string_of(&long));
    lines.push(String::from_str("------------------------------------------------------------"));
    let ghost head = lines_view(lines@);
    assert(head =~= seq![
        Seq::<char>::empty(),
        "Available bands in Region "@ + view.region_short_name@ + " ("@ + text::decimal(rows.len()) + " total):"@,
        "  ("@ + view.region_long_name@ + ")"@,
        rule_line(),
    ]);
    let n = view.rows.len();
    let mut k: usize = 0;
    while k < n
        invariant
            k <= n,
            n == view.rows@.len(),
            rows == rows_view(view.rows@),
            lines_view(lines@) =~= head + rows.subrange(0, k as int).map_values(
                |r: (usize, Seq<char>)| listing_row_line(r),
            ),
        decreases n - k,
    {
        let row = &view.rows[k];
        let num = text::decimal_chars(row.index as u64);
        let mut line = text::pad_left_chars(&num, 2);
        text::push_str(&mut line, ". ");
        text::push_str(&mut line, row.display.as_str());
        let ghost old_lines = lines@;
        let ghost want = head + rows.subrange(0, k + 1).map_values(
            |r: (usize, Seq<char>)| listing_row_line(r),
        );
        lines.push(text::string_of(&line));
        proof {
            assert(rows[k as int] == (row.index, row.display@));
            assert(line@ == listing_row_line(rows[k as int]));
            let prev = head + rows.subrange(0, k as int).map_values(
                |r: (usize, Seq<char>)| listing_row_line(r),
            );
            assert(rows.subrange(0, k + 1) =~= rows.subrange(0, k as int).push(rows[k as int]));
            assert(rows.subrange(0, k + 1).map_values(|r: (usize, Seq<char>)| listing_row_line(r))
                =~= rows.subrange(0, k as int).map_values(
                |r: (usize, Seq<char>)| listing_row_line(r),
            ).push(listing_row_line(rows[k as int])));
            assert(want =~= prev.push(listing_row_line(rows[k as int])));
            assert(lines_view(lines@) =~= lines_view(old_lines).push(line@));
        }
        k = k + 1;
        assert(lines_view(lines@) =~= want);
    }
    lines.push(String::new());
    assert(rows.subrange(0, n as int) =~= rows);
    assert(lines_view(lines@) =~= listing_lines(
        view.region_short_name@,
        view.region_long_name@,
        rows,
    ));
    lines
}

} // verus!
