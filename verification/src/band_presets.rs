//! Named band presets from a bands configuration file.
//!
//! The file's `[presets]` table maps a preset name to a list of band
//! tokens. A preset resolves to a band selection text: its tokens trimmed,
//! empty ones dropped, joined with ','.
use crate::order;
use crate::text;
use vstd::prelude::*;

verus! {

/// The content of a bands configuration file that presets are read from.
pub struct BandPresetFile {
    /// The `[presets]` table (preset name, band tokens), if the file has one.
    pub presets: Option<Vec<(String, Vec<String>)>>,
}

/// A preset table as texts.
pub open spec fn table_view(t: Seq<(String, Vec<String>)>) -> Seq<(Seq<char>, Seq<Seq<char>>)> {
    t.map_values(
        |e: (String, Vec<String>)| (e.0@, e.1@.map_values(|s: String| s@)),
    )
}

/// The texts of a list of strings.
pub open spec fn strings_view(v: Seq<String>) -> Seq<Seq<char>> {
    v.map_values(|s: String| s@)
}

/// The tokens trimmed, with the empty ones dropped.
pub open spec fn normalized_tokens(tokens: Seq<Seq<char>>) -> Seq<Seq<char>>
    decreases tokens.len(),
{
    if tokens.len() == 0 {
        Seq::empty()
    } else {
        let prev = normalized_tokens(tokens.drop_last());
        let t = text::trim(tokens.last());
        if t.len() > 0 {
            prev.push(t)
        } else {
            prev
        }
    }
}

/// What a preset's tokens normalize to: the selection text, or an error
/// naming the preset and the file.
pub open spec fn normalize_spec(tokens: Seq<Seq<char>>, name: Seq<char>, path: Seq<char>) -> Result<
    Seq<char>,
    Seq<char>,
> {
    if tokens.len() == 0 {
        Err("preset '"@ + name + "' in '"@ + path + "' has no band entries"@)
    } else {
        let n = normalized_tokens(tokens);
        if n.len() == 0 {
            Err("preset '"@ + name + "' in '"@ + path + "' has only empty band entries"@)
        } else {
            Ok(text::join(n, ","@))
        }
    }
}

/// The error for a file without a `[presets]` table.
pub open spec fn no_table_error(path: Seq<char>) -> Seq<char> {
    "bands config '"@ + path + "' does not define a [presets] table"@
}

/// The first entry whose name is `key`.
pub open spec fn exact_index(t: Seq<(Seq<char>, Seq<Seq<char>>)>, key: Seq<char>) -> Option<int>
    decreases t.len(),
{
    if t.len() == 0 {
        None
    } else if t[0].0 == key {
        Some(0)
    } else {
        match exact_index(t.drop_first(), key) {
            Some(i) => Some(i + 1),
            None => None,
        }
    }
}

/// The first entry whose name equals `key` up to ASCII case.
pub open spec fn caseless_index(t: Seq<(Seq<char>, Seq<Seq<char>>)>, key: Seq<char>) -> Option<int>
    decreases t.len(),
{
    if t.len() == 0 {
        None
    } else if text::lower(t[0].0) == text::lower(key) {
        Some(0)
    } else {
        match caseless_index(t.drop_first(), key) {
            Some(i) => Some(i + 1),
            None => None,
        }
    }
}

/// The preset names in ascending order.
pub open spec fn sorted_names(t: Seq<(Seq<char>, Seq<Seq<char>>)>) -> Seq<Seq<char>> {
    order::stable_sort(t.map_values(|e: (Seq<char>, Seq<Seq<char>>)| (e.0, ()))).map_values(
        |e: (Seq<char>, ())| e.0,
    )
}

/// What looking a preset up by name gives back.
pub open spec fn selection_spec(
    table: Option<Seq<(Seq<char>, Seq<Seq<char>>)>>,
    path: Seq<char>,
    name: Seq<char>,
) -> Result<Seq<char>, Seq<char>> {
    match table {
        None => Err(no_table_error(path)),
        Some(t) => {
            let requested = text::trim(name);
            if requested.len() == 0 {
                Err("preset name cannot be empty"@)
            } else {
                let found = match exact_index(t, requested) {
                    Some(i) => Some(i),
                    None => caseless_index(t, requested),
                };
                match found {
                    Some(i) => normalize_spec(t[i].1, requested, path),
                    None => Err(
                        "unknown preset '"@ + requested + "' in '"@ + path
                            + "'. Available presets: "@ + text::join(sorted_names(t), ", "@),
                    ),
                }
            }
        },
    }
}

/// Every preset normalized, in table order; the first failure stops the walk.
pub open spec fn normalize_all(t: Seq<(Seq<char>, Seq<Seq<char>>)>, path: Seq<char>) -> Result<
    Seq<(Seq<char>, Seq<char>)>,
    Seq<char>,
>
    decreases t.len(),
{
    if t.len() == 0 {
        Ok(Seq::empty())
    } else {
        match normalize_all(t.drop_last(), path) {
            Err(e) => Err(e),
            Ok(prev) => match normalize_spec(t.last().1, t.last().0, path) {
                Err(e) => Err(e),
                Ok(sel) => Ok(prev.push((t.last().0, sel))),
            },
        }
    }
}

/// Named presets sorted by name, ASCII case ignored; presets whose names
/// differ only in case keep their table order.
pub open spec fn sort_named(n: Seq<(Seq<char>, Seq<char>)>) -> Seq<(Seq<char>, Seq<char>)> {
    order::stable_sort(n.map_values(|e: (Seq<char>, Seq<char>)| (text::lower(e.0), e))).map_values(
        |e: (Seq<char>, (Seq<char>, Seq<char>))| e.1,
    )
}

/// What listing all presets gives back.
pub open spec fn named_spec(table: Option<Seq<(Seq<char>, Seq<Seq<char>>)>>, path: Seq<char>) -> Result<
    Seq<(Seq<char>, Seq<char>)>,
    Seq<char>,
> {
    match table {
        None => Err(no_table_error(path)),
        Some(t) => match normalize_all(t, path) {
            Err(e) => Err(e),
            Ok(n) => Ok(sort_named(n)),
        },
    }
}

proof fn lemma_normalize_all_len(t: Seq<(Seq<char>, Seq<Seq<char>>)>, path: Seq<char>)
    ensures
        normalize_all(t, path) matches Ok(n) ==> n.len() == t.len(),
    decreases t.len(),
{
    if t.len() > 0 {
        lemma_normalize_all_len(t.drop_last(), path);
    }
}

/// Listing the presets keeps every preset of the table, each with its
/// normalized selection and as often as the table has it, and sorts them by
/// name with ASCII case ignored.
pub proof fn lemma_named_presets_sorted(t: Seq<(Seq<char>, Seq<Seq<char>>)>, path: Seq<char>)
    ensures
        named_spec(Some(t), path) matches Ok(v) ==> {
            &&& normalize_all(t, path) matches Ok(n) && v.to_multiset() == n.to_multiset()
            &&& v.len() == t.len()
            &&& forall|i: int, j: int|
                0 <= i < j < v.len() ==> !order::lex_lt(text::lower(v[j].0), text::lower(v[i].0))
        },
{
    lemma_normalize_all_len(t, path);
    if let Ok(n) = normalize_all(t, path) {
        let keyed = n.map_values(|e: (Seq<char>, Seq<char>)| (text::lower(e.0), e));
        let sorted = order::stable_sort(keyed);
        order::lemma_stable_sort(keyed);
        order::lemma_stable_sort_payloads(keyed);
        let g = |e: (Seq<char>, Seq<char>)| text::lower(e.0);
        assert forall|i: int| 0 <= i < keyed.len() implies (#[trigger] keyed[i]).0 == g(keyed[i].1) by {}
        order::lemma_stable_sort_keys(keyed, g);
        let v = sort_named(n);
        assert(v == sorted.map_values(|e: (Seq<char>, (Seq<char>, Seq<char>))| e.1));
        assert(keyed.map_values(|e: (Seq<char>, (Seq<char>, Seq<char>))| e.1) =~= n);
        assert forall|i: int, j: int| 0 <= i < j < v.len() implies !order::lex_lt(
            text::lower(v[j].0),
            text::lower(v[i].0),
        ) by {
            assert(sorted[i].0 == g(sorted[i].1));
            assert(sorted[j].0 == g(sorted[j].1));
            assert(v[i] == sorted[i].1);
            assert(v[j] == sorted[j].1);
        }
    }
}

/// Looking a preset up: a blank name is refused; a name that matches no
/// preset, not even with ASCII case ignored, is refused with the known names
/// listed in ascending order; a matched preset whose entries are all blank
/// (or that has none) is refused.
pub proof fn lemma_preset_lookup_errors(
    t: Seq<(Seq<char>, Seq<Seq<char>>)>,
    path: Seq<char>,
    name: Seq<char>,
)
    ensures
        text::trim(name).len() == 0 ==> selection_spec(Some(t), path, name) == Err::<
            Seq<char>,
            Seq<char>,
        >("preset name cannot be empty"@),
        text::trim(name).len() > 0 && exact_index(t, text::trim(name)) is None && caseless_index(
            t,
            text::trim(name),
        ) is None ==> selection_spec(Some(t), path, name) == Err::<Seq<char>, Seq<char>>(
            "unknown preset '"@ + text::trim(name) + "' in '"@ + path + "'. Available presets: "@
                + text::join(sorted_names(t), ", "@),
        ),
        forall|i: int, j: int|
            0 <= i < j < sorted_names(t).len() ==> !order::lex_lt(
                sorted_names(t)[j],
                sorted_names(t)[i],
            ),
        text::trim(name).len() > 0 ==> match exact_index(t, text::trim(name)) {
            Some(i) => normalized_tokens(t[i].1).len() == 0 ==> selection_spec(
                Some(t),
                path,
                name,
            ) is Err,
            None => match caseless_index(t, text::trim(name)) {
                Some(i) => normalized_tokens(t[i].1).len() == 0 ==> selection_spec(
                    Some(t),
                    path,
                    name,
                ) is Err,
                None => true,
            },
        },
{
    let keyed = t.map_values(|e: (Seq<char>, Seq<Seq<char>>)| (e.0, ()));
    order::lemma_stable_sort(keyed);
    let sorted = order::stable_sort(keyed);
    assert forall|i: int, j: int| 0 <= i < j < sorted_names(t).len() implies !order::lex_lt(
        sorted_names(t)[j],
        sorted_names(t)[i],
    ) by {
        assert(sorted_names(t)[i] == sorted[i].0);
        assert(sorted_names(t)[j] == sorted[j].0);
    }
    lemma_exact_index_bound(t, text::trim(name));
    lemma_caseless_index_bound(t, text::trim(name));
}

/// The view of a file's preset table.
pub open spec fn file_view(f: &BandPresetFile) -> Option<Seq<(Seq<char>, Seq<Seq<char>>)>> {
    match f.presets {
        Some(t) => Some(table_view(t@)),
        None => None,
    }
}

proof fn lemma_exact_index_bound(t: Seq<(Seq<char>, Seq<Seq<char>>)>, key: Seq<char>)
    ensures
        exact_index(t, key) matches Some(i) ==> 0 <= i < t.len(),
    decreases t.len(),
{
    if t.len() > 0 {
        lemma_exact_index_bound(t.drop_first(), key);
    }
}

proof fn lemma_caseless_index_bound(t: Seq<(Seq<char>, Seq<Seq<char>>)>, key: Seq<char>)
    ensures
        caseless_index(t, key) matches Some(i) ==> 0 <= i < t.len(),
    decreases t.len(),
{
    if t.len() > 0 {
        lemma_caseless_index_bound(t.drop_first(), key);
    }
}

// ---------------------------------------------------------------------------
// Executable code
// ---------------------------------------------------------------------------

fn preset_error(name: &[char], path: &str, tail: &str) -> (s: String)
    ensures
        s@ == "preset '"@ + name@ + "' in '"@ + path@ + tail@,
{
    let mut v: Vec<char> = Vec::new();
    text::push_str(&mut v, "preset '");
    text::push_all(&mut v, name);
    text::push_str(&mut v, "' in '");
    text::push_str(&mut v, path);
    text::push_str(&mut v, tail);
    text::string_of(&v)
}

/// A preset's tokens trimmed, empty ones dropped, joined with ','; an
/// error naming the preset when it has no tokens or only empty ones.
pub fn normalize_preset_tokens(tokens: &[String], preset_name: &str, path: &str) -> (r: Result<
    String,
    String,
>)
    ensures
        r matches Ok(s) ==> normalize_spec(strings_view(tokens@), preset_name@, path@) == Ok::<
            Seq<char>,
            Seq<char>,
        >(s@),
        r matches Err(s) ==> normalize_spec(strings_view(tokens@), preset_name@, path@) == Err::<
            Seq<char>,
            Seq<char>,
        >(s@),
{
    let ghost toks = strings_view(tokens@);
    let name = text::chars_of(preset_name);
    if tokens.len() == 0 {
        return Err(preset_error(&name, path, "' has no band entries"));
    }
    let mut parts: Vec<Vec<char>> = Vec::new();
    let n = tokens.len();
    let mut i: usize = 0;
    while i < n
        invariant
            i <= n,
            n == tokens@.len(),
            toks == strings_view(tokens@),
            parts@.map_values(|p: Vec<char>| p@) =~= normalized_tokens(toks.subrange(0, i as int)),
        decreases n - i,
    {
        let t = text::trim_chars(&text::chars_of(tokens[i].as_str()));
        let ghost before = parts@;
        proof {
            let post = toks.subrange(0, i + 1);
            assert(post.drop_last() =~= toks.subrange(0, i as int));
            assert(post.last() == tokens@[i as int]@);
        }
        if t.len() > 0 {
            parts.push(t);
            assert(parts@.map_values(|p: Vec<char>| p@) =~= before.map_values(|p: Vec<char>| p@).push(
                t@,
            ));
        }
        i = i + 1;
    }
    assert(toks.subrange(0, n as int) =~= toks);
    if parts.len() == 0 {
        return Err(preset_error(&name, path, "' has only empty band entries"));
    }
    let sep = text::chars_of(",");
    let joined = text::join_chars(&parts, &sep);
    Ok(text::string_of(&joined))
}

fn no_table(path: &str) -> (s: String)
    ensures
        s@ == no_table_error(path@),
{
    let mut v: Vec<char> = Vec::new();
    text::push_str(&mut v, "bands config '");
    text::push_str(&mut v, path);
    text::push_str(&mut v, "' does not define a [presets] table");
    text::string_of(&v)
}

/// The `[presets]` table of a file, or the error for a file without one.
pub fn read_preset_map<'a>(file: &'a BandPresetFile, path: &str) -> (r: Result<
    &'a Vec<(String, Vec<String>)>,
    String,
>)
    ensures
        r matches Ok(t) ==> file_view(file) == Some(table_view(t@)),
        r matches Err(s) ==> file_view(file) is None && s@ == no_table_error(path@),
{
    match &file.presets {
        Some(t) => Ok(t),
        None => Err(no_table(path)),
    }
}

fn sorted_preset_names(table: &Vec<(String, Vec<String>)>) -> (r: Vec<Vec<char>>)
    ensures
        r@.map_values(|p: Vec<char>| p@) == sorted_names(table_view(table@)),
{
    let ghost tv = table_view(table@);
    let mut items: Vec<(Vec<char>, ())> = Vec::new();
    let n = table.len();
    let mut i: usize = 0;
    while i < n
        invariant
            i <= n,
            n == table@.len(),
            tv == table_view(table@),
            items@.len() == i,
            forall|k: int| 0 <= k < i ==> (#[trigger] items@[k]).0@ == tv[k].0,
        decreases n - i,
    {
        assert(tv[i as int].0 == table@[i as int].0@);
        items.push((text::chars_of(table[i].0.as_str()), ()));
        i = i + 1;
    }
    let ghost unsorted = tv.map_values(|e: (Seq<char>, Seq<Seq<char>>)| (e.0, ()));
    assert(order::keyed_view(items@) =~= unsorted);
    let sorted = order::stable_sort_by_key(items);
    let ghost sv = order::keyed_view(sorted@);
    let mut r: Vec<Vec<char>> = Vec::new();
    let m = sorted.len();
    let mut j: usize = 0;
    while j < m
        invariant
            j <= m,
            m == sorted@.len(),
            sv == order::keyed_view(sorted@),
            r@.len() == j,
            forall|k: int| 0 <= k < j ==> (#[trigger] r@[k])@ == sv[k].0,
        decreases m - j,
    {
        let mut name: Vec<char> = Vec::new();
        text::push_all(&mut name, &sorted[j].0);
        assert(sv[j as int].0 == sorted@[j as int].0@);
        r.push(name);
        j = j + 1;
    }
    assert(r@.map_values(|p: Vec<char>| p@) =~= sv.map_values(|e: (Seq<char>, ())| e.0));
    r
}

fn lookup_exact(table: &Vec<(String, Vec<String>)>, key: &[char]) -> (r: Option<usize>)
    ensures
        r matches Some(i) ==> exact_index(table_view(table@), key@) == Some(i as int),
        r is None ==> exact_index(table_view(table@), key@) is None,
{
    let ghost tv = table_view(table@);
    let n = table.len();
    let mut i: usize = 0;
    assert(tv.subrange(0, n as int) =~= tv);
    while i < n
        invariant
            i <= n,
            n == table@.len(),
            tv == table_view(table@),
            exact_index(tv, key@) == match exact_index(tv.subrange(i as int, n as int), key@) {
                Some(k) => Some(k + i),
                None => None::<int>,
            },
        decreases n - i,
    {
        let name = text::chars_of(table[i].0.as_str());
        proof {
            let sub = tv.subrange(i as int, n as int);
            assert(sub.drop_first() =~= tv.subrange(i + 1, n as int));
            assert(sub[0] == tv[i as int]);
        }
        if text::chars_eq(&name, key) {
            return Some(i);
        }
        i = i + 1;
    }
    None
}

fn lookup_caseless(table: &Vec<(String, Vec<String>)>, key: &[char]) -> (r: Option<usize>)
    ensures
        r matches Some(i) ==> caseless_index(table_view(table@), key@) == Some(i as int),
        r is None ==> caseless_index(table_view(table@), key@) is None,
{
    let ghost tv = table_view(table@);
    let lkey = text::lower_chars(key);
    let n = table.len();
    let mut i: usize = 0;
    assert(tv.subrange(0, n as int) =~= tv);
    while i < n
        invariant
            i <= n,
            n == table@.len(),
            tv == table_view(table@),
            lkey@ == text::lower(key@),
            caseless_index(tv, key@) == match caseless_index(tv.subrange(i as int, n as int), key@) {
                Some(k) => Some(k + i),
                None => None::<int>,
            },
        decreases n - i,
    {
        let name = text::lower_chars(&text::chars_of(table[i].0.as_str()));
        proof {
            let sub = tv.subrange(i as int, n as int);
            assert(sub.drop_first() =~= tv.subrange(i + 1, n as int));
            assert(sub[0] == tv[i as int]);
        }
        if text::chars_eq(&name, &lkey) {
            return Some(i);
        }
        i = i + 1;
    }
    None
}

/// Resolves a preset by name (surrounding whitespace ignored; an exact name
/// first, else the first name equal up to ASCII case) to its normalized
/// band selection text. An unknown name gets an error listing the known
/// names in ascending order.
pub fn load_preset_selection(file: &BandPresetFile, path: &str, preset_name: &str) -> (r: Result<
    String,
    String,
>)
    ensures
        r matches Ok(s) ==> selection_spec(file_view(file), path@, preset_name@) == Ok::<
            Seq<char>,
            Seq<char>,
        >(s@),
        r matches Err(s) ==> selection_spec(file_view(file), path@, preset_name@) == Err::<
            Seq<char>,
            Seq<char>,
        >(s@),
{
    let table = match read_preset_map(file, path) {
        Ok(t) => t,
        Err(e) => return Err(e),
    };
    let requested = text::trim_chars(&text::chars_of(preset_name));
    if requested.len() == 0 {
        return Err(String::from_str("preset name cannot be empty"));
    }
    proof {
        lemma_exact_index_bound(table_view(table@), requested@);
        lemma_caseless_index_bound(table_view(table@), requested@);
    }
    let found = match lookup_exact(table, &requested) {
        Some(i) => Some(i),
        None => lookup_caseless(table, &requested),
    };
    match found {
        Some(i) => {
            proof {
                assert(table_view(table@)[i as int].1 == strings_view(table@[i as int].1@));
            }
            let requested_text = text::string_of(&requested);
            normalize_preset_tokens(table[i].1.as_slice(), requested_text.as_str(), path)
        },
        None => {
            let names = sorted_preset_names(table);
            let sep = text::chars_of(", ");
            let listed = text::join_chars(&names, &sep);
            let mut v: Vec<char> = Vec::new();
            text::push_str(&mut v, "unknown preset '");
            text::push_all(&mut v, &requested);
            text::push_str(&mut v, "' in '");
            text::push_str(&mut v, path);
            text::push_str(&mut v, "'. Available presets: ");
            text::push_all(&mut v, &listed);
            Err(text::string_of(&v))
        },
    }
}

proof fn lemma_normalize_all_err(t: Seq<(Seq<char>, Seq<Seq<char>>)>, j: int, path: Seq<char>)
    requires
        0 <= j <= t.len(),
        normalize_all(t.subrange(0, j), path) is Err,
    ensures
        normalize_all(t, path) == normalize_all(t.subrange(0, j), path),
    decreases t.len() - j,
{
    if j < t.len() {
        let post = t.subrange(0, j + 1);
        assert(post.drop_last() =~= t.subrange(0, j));
        lemma_normalize_all_err(t, j + 1, path);
    } else {
        assert(t.subrange(0, j) =~= t);
    }
}

/// Every preset of the file with its normalized selection text, sorted by
/// name with ASCII case ignored.
pub fn load_named_presets(file: &BandPresetFile, path: &str) -> (r: Result<
    Vec<(String, String)>,
    String,
>)
    ensures
        r matches Ok(v) ==> named_spec(file_view(file), path@) == Ok::<
            Seq<(Seq<char>, Seq<char>)>,
            Seq<char>,
        >(v@.map_values(|e: (String, String)| (e.0@, e.1@))),
        r matches Err(s) ==> named_spec(file_view(file), path@) == Err::<
            Seq<(Seq<char>, Seq<char>)>,
            Seq<char>,
        >(s@),
{
    let table = match read_preset_map(file, path) {
        Ok(t) => t,
        Err(e) => return Err(e),
    };
    let ghost tv = table_view(table@);
    let ghost h = |p: (String, String)| (p.0@, p.1@);
    let mut items: Vec<(Vec<char>, (String, String))> = Vec::new();
    let n = table.len();
    let mut i: usize = 0;
    assert(tv.subrange(0, 0) =~= Seq::<(Seq<char>, Seq<Seq<char>>)>::empty());
    assert(items@.map_values(|e: (Vec<char>, (String, String))| h(e.1)) =~= Seq::<
        (Seq<char>, Seq<char>),
    >::empty());
    while i < n
        invariant
            i <= n,
            n == table@.len(),
            tv == table_view(table@),
            file_view(file) == Some(tv),
            h == (|p: (String, String)| (p.0@, p.1@)),
            normalize_all(tv.subrange(0, i as int), path@) == Ok::<
                Seq<(Seq<char>, Seq<char>)>,
                Seq<char>,
            >(items@.map_values(|e: (Vec<char>, (String, String))| h(e.1))),
            forall|k: int|
                0 <= k < items@.len() ==> (#[trigger] items@[k]).0@ == text::lower(items@[k].1.0@),
        decreases n - i,
    {
        let name = table[i].0.clone();
        let name_chars = text::chars_of(name.as_str());
        proof {
            let post = tv.subrange(0, i + 1);
            assert(post.drop_last() =~= tv.subrange(0, i as int));
            assert(post.last() == tv[i as int]);
            assert(tv[i as int].1 == strings_view(table@[i as int].1@));
            assert(tv[i as int].0 == name@);
        }
        let sel = match normalize_preset_tokens(table[i].1.as_slice(), name.as_str(), path) {
            Ok(s) => s,
            Err(e) => {
                proof {
                    let post = tv.subrange(0, i + 1);
                    assert(normalize_spec(post.last().1, post.last().0, path@) == Err::<
                        Seq<char>,
                        Seq<char>,
                    >(e@));
                    assert(normalize_all(post, path@) == Err::<
                        Seq<(Seq<char>, Seq<char>)>,
                        Seq<char>,
                    >(e@));
                    lemma_normalize_all_err(tv, i + 1, path@);
                    assert(tv.subrange(0, n as int) =~= tv);
                }
                return Err(e);
            },
        };
        let key = text::lower_chars(&name_chars);
        let ghost before = items@;
        items.push((key, (name, sel)));
        assert(items@.map_values(|e: (Vec<char>, (String, String))| h(e.1)) =~= before.map_values(
            |e: (Vec<char>, (String, String))| h(e.1),
        ).push((tv[i as int].0, sel@)));
        i = i + 1;
    }
    assert(tv.subrange(0, n as int) =~= tv);
    let ghost normalized = items@.map_values(|e: (Vec<char>, (String, String))| h(e.1));
    let ghost item_view = order::keyed_view(items@);
    let ghost keyed = normalized.map_values(|e: (Seq<char>, Seq<char>)| (text::lower(e.0), e));
    assert(item_view.map_values(|e: (Seq<char>, (String, String))| (e.0, h(e.1))) =~= keyed);
    let sorted = order::stable_sort_by_key(items);
    let ghost sv = order::keyed_view(sorted@);
    proof {
        order::lemma_stable_sort_map(item_view, h);
    }
    let mut out: Vec<(String, String)> = Vec::new();
    let m = sorted.len();
    let mut j: usize = 0;
    while j < m
        invariant
            j <= m,
            m == sorted@.len(),
            sv == order::keyed_view(sorted@),
            h == (|p: (String, String)| (p.0@, p.1@)),
            out@.len() == j,
            forall|k: int| 0 <= k < j ==> h(#[trigger] out@[k]) == h(sv[k].1),
        decreases m - j,
    {
        let name = sorted[j].1.0.clone();
        let sel = sorted[j].1.1.clone();
        assert(sv[j as int].1 == sorted@[j as int].1);
        out.push((name, sel));
        j = j + 1;
    }
    proof {
        let mapped = sv.map_values(|e: (Seq<char>, (String, String))| (e.0, h(e.1)));
        assert(mapped == order::stable_sort(keyed));
        assert(out@.map_values(|e: (String, String)| (e.0@, e.1@)) =~= mapped.map_values(
            |e: (Seq<char>, (Seq<char>, Seq<char>))| e.1,
        ));
    }
    Ok(out)
}

} // verus!
