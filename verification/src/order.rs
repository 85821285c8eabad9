//! Lexicographic order on texts and a stable sort of keyed items.
//!
//! Texts compare character by character on code points, which is the order
//! `Ord` gives `str` (UTF-8 keeps code-point order byte-wise).
use vstd::prelude::*;

verus! {

/// Code-point order on characters.
pub open spec fn char_lt(x: char, y: char) -> bool {
    x < y
}

/// Strict lexicographic order on code points.
pub open spec fn lex_lt(a: Seq<char>, b: Seq<char>) -> bool
    decreases a.len(),
{
    if a.len() == 0 {
        b.len() > 0
    } else if b.len() == 0 {
        false
    } else if char_lt(a[0], b[0]) {
        true
    } else if a[0] == b[0] {
        lex_lt(a.drop_first(), b.drop_first())
    } else {
        false
    }
}

/// The position at which a stable insertion places an item with key `k`:
/// after every item whose key is not greater than `k`.
pub open spec fn stable_pos<T>(s: Seq<(Seq<char>, T)>, k: Seq<char>) -> int
    decreases s.len(),
{
    if s.len() == 0 {
        0
    } else if lex_lt(k, s.last().0) {
        stable_pos(s.drop_last(), k)
    } else {
        s.len() as int
    }
}

/// The stable sort of keyed items by key: items with equal keys keep their
/// relative order.
pub open spec fn stable_sort<T>(s: Seq<(Seq<char>, T)>) -> Seq<(Seq<char>, T)>
    decreases s.len(),
{
    if s.len() == 0 {
        s
    } else {
        let r = stable_sort(s.drop_last());
        r.insert(stable_pos(r, s.last().0), s.last())
    }
}

/// Keys never decrease along the sequence.
pub open spec fn sorted_by_key<T>(s: Seq<(Seq<char>, T)>) -> bool {
    forall|i: int, j: int| 0 <= i < j < s.len() ==> !lex_lt(s[j].0, s[i].0)
}

/// The view of keyed items whose keys are character vectors.
pub open spec fn keyed_view<T>(items: Seq<(Vec<char>, T)>) -> Seq<(Seq<char>, T)> {
    items.map_values(|e: (Vec<char>, T)| (e.0@, e.1))
}

// ---------------------------------------------------------------------------
// Order lemmas
// ---------------------------------------------------------------------------

/// No text precedes itself.
pub proof fn lemma_lex_irreflexive(a: Seq<char>)
    ensures
        !lex_lt(a, a),
    decreases a.len(),
{
    if a.len() > 0 {
        lemma_lex_irreflexive(a.drop_first());
    }
}

/// Of two distinct texts one precedes the other.
pub proof fn lemma_lex_total(a: Seq<char>, b: Seq<char>)
    ensures
        a != b ==> lex_lt(a, b) || lex_lt(b, a),
    decreases a.len(),
{
    if a.len() > 0 && b.len() > 0 && a[0] == b[0] {
        lemma_lex_total(a.drop_first(), b.drop_first());
        if a.drop_first() == b.drop_first() {
            assert(a =~= seq![a[0]] + a.drop_first());
            assert(b =~= seq![b[0]] + b.drop_first());
        }
    } else if a.len() == 0 && b.len() == 0 {
        assert(a =~= b);
    } else if a.len() == 0 {
        assert(lex_lt(a, b));
    } else if b.len() == 0 {
        assert(lex_lt(b, a));
    } else {
        let x = a[0];
        let y = b[0];
        assert(x != y);
        assert(char_lt(x, y) || char_lt(y, x));
    }
}

/// No two texts precede each other.
pub proof fn lemma_lex_asymmetric(a: Seq<char>, b: Seq<char>)
    ensures
        !(lex_lt(a, b) && lex_lt(b, a)),
    decreases a.len(),
{
    if a.len() > 0 && b.len() > 0 && a[0] == b[0] {
        lemma_lex_asymmetric(a.drop_first(), b.drop_first());
    }
}

/// The order is transitive.
pub proof fn lemma_lex_transitive(a: Seq<char>, b: Seq<char>, c: Seq<char>)
    requires
        lex_lt(a, b),
        lex_lt(b, c),
    ensures
        lex_lt(a, c),
    decreases a.len(),
{
    if a.len() > 0 && b.len() > 0 && c.len() > 0 && a[0] == b[0] && b[0] == c[0] {
        lemma_lex_transitive(a.drop_first(), b.drop_first(), c.drop_first());
    }
}

/// A key greater than `k` followed by a key not smaller: the second is greater too.
proof fn lemma_lex_lt_le(k: Seq<char>, a: Seq<char>, b: Seq<char>)
    requires
        lex_lt(k, a),
        !lex_lt(b, a),
    ensures
        lex_lt(k, b),
{
    lemma_lex_total(a, b);
    if a != b {
        lemma_lex_transitive(k, a, b);
    }
}

// ---------------------------------------------------------------------------
// Sort lemmas
// ---------------------------------------------------------------------------

proof fn lemma_stable_pos<T>(s: Seq<(Seq<char>, T)>, k: Seq<char>) -> (p: int)
    requires
        sorted_by_key(s),
    ensures
        p == stable_pos(s, k),
        0 <= p <= s.len(),
        forall|i: int| 0 <= i < p ==> !lex_lt(k, #[trigger] s[i].0),
        forall|i: int| p <= i < s.len() ==> lex_lt(k, #[trigger] s[i].0),
    decreases s.len(),
{
    if s.len() == 0 {
        0
    } else if lex_lt(k, s.last().0) {
        let t = s.drop_last();
        assert(sorted_by_key(t)) by {
            assert forall|i: int, j: int| 0 <= i < j < t.len() implies !lex_lt(t[j].0, t[i].0) by {
                assert(t[i] == s[i] && t[j] == s[j]);
            }
        }
        let p = lemma_stable_pos(t, k);
        assert forall|i: int| p <= i < s.len() implies lex_lt(k, #[trigger] s[i].0) by {
            if i < s.len() - 1 {
                assert(t[i] == s[i]);
            }
        }
        assert forall|i: int| 0 <= i < p implies !lex_lt(k, #[trigger] s[i].0) by {
            assert(t[i] == s[i]);
        }
        p
    } else {
        let p = s.len() as int;
        assert forall|i: int| 0 <= i < p implies !lex_lt(k, #[trigger] s[i].0) by {
            if i < s.len() - 1 {
                assert(!lex_lt(s.last().0, s[i].0));
                if lex_lt(k, s[i].0) {
                    lemma_lex_lt_le(k, s[i].0, s.last().0);
                }
            }
        }
        p
    }
}

/// The stable sort orders its result by key and keeps every item.
pub proof fn lemma_stable_sort<T>(s: Seq<(Seq<char>, T)>)
    ensures
        sorted_by_key(stable_sort(s)),
        stable_sort(s).to_multiset() == s.to_multiset(),
        stable_sort(s).len() == s.len(),
    decreases s.len(),
{
    broadcast use vstd::seq_lib::to_multiset_insert, vstd::seq_lib::to_multiset_build;

    if s.len() > 0 {
        let t = s.drop_last();
        lemma_stable_sort(t);
        let r = stable_sort(t);
        let x = s.last();
        let p = lemma_stable_pos(r, x.0);
        let out = r.insert(p, x);
        assert(sorted_by_key(out)) by {
            assert forall|i: int, j: int| 0 <= i < j < out.len() implies !lex_lt(
                out[j].0,
                out[i].0,
            ) by {
                if j < p {
                    assert(out[i] == r[i] && out[j] == r[j]);
                } else if j == p {
                    assert(out[i] == r[i]);
                    assert(!lex_lt(x.0, r[i].0));
                } else if i == p {
                    assert(out[j] == r[j - 1]);
                    assert(lex_lt(x.0, r[j - 1].0));
                    lemma_lex_asymmetric(x.0, r[j - 1].0);
                } else if i < p {
                    assert(out[i] == r[i] && out[j] == r[j - 1]);
                } else {
                    assert(out[i] == r[i - 1] && out[j] == r[j - 1]);
                }
            }
        }
        assert(s =~= t.push(x));
    }
}

proof fn lemma_stable_pos_map<T, U>(s: Seq<(Seq<char>, T)>, k: Seq<char>, h: spec_fn(T) -> U)
    ensures
        stable_pos(s.map_values(|e: (Seq<char>, T)| (e.0, h(e.1))), k) == stable_pos(s, k),
    decreases s.len(),
{
    let m = s.map_values(|e: (Seq<char>, T)| (e.0, h(e.1)));
    if s.len() > 0 {
        assert(m.drop_last() =~= s.drop_last().map_values(|e: (Seq<char>, T)| (e.0, h(e.1))));
        assert(m.last().0 == s.last().0);
        lemma_stable_pos_map(s.drop_last(), k, h);
    }
}

/// The sort looks at keys only: changing the payloads commutes with it.
pub proof fn lemma_stable_sort_map<T, U>(s: Seq<(Seq<char>, T)>, h: spec_fn(T) -> U)
    ensures
        stable_sort(s).map_values(|e: (Seq<char>, T)| (e.0, h(e.1))) == stable_sort(
            s.map_values(|e: (Seq<char>, T)| (e.0, h(e.1))),
        ),
    decreases s.len(),
{
    let m = s.map_values(|e: (Seq<char>, T)| (e.0, h(e.1)));
    if s.len() > 0 {
        let t = s.drop_last();
        lemma_stable_sort_map(t, h);
        lemma_stable_sort(t);
        let r = stable_sort(t);
        let p = stable_pos(r, s.last().0);
        lemma_stable_pos_map(r, s.last().0, h);
        assert(m.drop_last() =~= t.map_values(|e: (Seq<char>, T)| (e.0, h(e.1))));
        assert(m.last() == (s.last().0, h(s.last().1)));
        lemma_stable_pos_bound(r, s.last().0);
        assert(r.insert(p, s.last()).map_values(|e: (Seq<char>, T)| (e.0, h(e.1))) =~= r.map_values(
            |e: (Seq<char>, T)| (e.0, h(e.1)),
        ).insert(p, (s.last().0, h(s.last().1))));
    } else {
        assert(m =~= Seq::<(Seq<char>, U)>::empty());
    }
}

proof fn lemma_stable_pos_bound<T>(s: Seq<(Seq<char>, T)>, k: Seq<char>)
    ensures
        0 <= stable_pos(s, k) <= s.len(),
    decreases s.len(),
{
    if s.len() > 0 {
        lemma_stable_pos_bound(s.drop_last(), k);
    }
}

/// Sorting keeps every payload, each as often as before.
pub proof fn lemma_stable_sort_payloads<T>(s: Seq<(Seq<char>, T)>)
    ensures
        stable_sort(s).map_values(|e: (Seq<char>, T)| e.1).to_multiset() == s.map_values(
            |e: (Seq<char>, T)| e.1,
        ).to_multiset(),
    decreases s.len(),
{
    broadcast use vstd::seq_lib::to_multiset_insert, vstd::seq_lib::to_multiset_build;

    if s.len() > 0 {
        let t = s.drop_last();
        lemma_stable_sort_payloads(t);
        lemma_stable_sort(t);
        let r = stable_sort(t);
        let x = s.last();
        let p = stable_pos(r, x.0);
        lemma_stable_pos_bound(r, x.0);
        assert(r.insert(p, x).map_values(|e: (Seq<char>, T)| e.1) =~= r.map_values(
            |e: (Seq<char>, T)| e.1,
        ).insert(p, x.1));
        assert(s.map_values(|e: (Seq<char>, T)| e.1) =~= t.map_values(|e: (Seq<char>, T)| e.1).push(
            x.1,
        ));
    }
}

/// Keys that are a function of the payload stay so after sorting.
pub proof fn lemma_stable_sort_keys<T>(s: Seq<(Seq<char>, T)>, g: spec_fn(T) -> Seq<char>)
    requires
        forall|i: int| 0 <= i < s.len() ==> (#[trigger] s[i]).0 == g(s[i].1),
    ensures
        forall|i: int|
            0 <= i < stable_sort(s).len() ==> (#[trigger] stable_sort(s)[i]).0 == g(
                stable_sort(s)[i].1,
            ),
    decreases s.len(),
{
    if s.len() > 0 {
        let t = s.drop_last();
        assert forall|i: int| 0 <= i < t.len() implies (#[trigger] t[i]).0 == g(t[i].1) by {
            assert(t[i] == s[i]);
        }
        lemma_stable_sort_keys(t, g);
        lemma_stable_sort(t);
        let r = stable_sort(t);
        let x = s.last();
        let p = stable_pos(r, x.0);
        lemma_stable_pos_bound(r, x.0);
        let out = r.insert(p, x);
        assert forall|i: int| 0 <= i < out.len() implies (#[trigger] out[i]).0 == g(out[i].1) by {
            if i < p {
                assert(out[i] == r[i]);
            } else if i > p {
                assert(out[i] == r[i - 1]);
            }
        }
    }
}

// ---------------------------------------------------------------------------
// Executable code
// ---------------------------------------------------------------------------

/// Whether `a` precedes `b` lexicographically.
pub fn lex_less(a: &[char], b: &[char]) -> (r: bool)
    ensures
        r == lex_lt(a@, b@),
{
    let n = a.len();
    let m = b.len();
    let mut i: usize = 0;
    assert(a@.subrange(0, n as int) =~= a@);
    assert(b@.subrange(0, m as int) =~= b@);
    while i < n && i < m && a[i] == b[i]
        invariant
            i <= n,
            i <= m,
            n == a@.len(),
            m == b@.len(),
            lex_lt(a@, b@) == lex_lt(a@.subrange(i as int, n as int), b@.subrange(i as int, m as int)),
        decreases n - i,
    {
        proof {
            let sa = a@.subrange(i as int, n as int);
            let sb = b@.subrange(i as int, m as int);
            assert(sa.drop_first() =~= a@.subrange(i + 1, n as int));
            assert(sb.drop_first() =~= b@.subrange(i + 1, m as int));
        }
        i = i + 1;
    }
    proof {
        let sa = a@.subrange(i as int, n as int);
        let sb = b@.subrange(i as int, m as int);
        if i < n && i < m {
            assert(sa[0] == a@[i as int] && sb[0] == b@[i as int]);
        }
    }
    if i == n {
        i < m
    } else if i == m {
        false
    } else {
        let x = a[i];
        let y = b[i];
        x < y
    }
}

/// Sorts keyed items by key, keeping the relative order of items with
/// equal keys.
pub fn stable_sort_by_key<T>(items: Vec<(Vec<char>, T)>) -> (r: Vec<(Vec<char>, T)>)
    ensures
        keyed_view(r@) == stable_sort(keyed_view(items@)),
{
    let ghost input = keyed_view(items@);
    let mut result: Vec<(Vec<char>, T)> = Vec::new();
    let mut rest = items;
    let ghost consumed: int = 0;
    let mut rev: Vec<(Vec<char>, T)> = Vec::new();
    // Take the items out front-first by reversing once.
    while rest.len() > 0
        invariant
            keyed_view(rev@) + keyed_view(rest@).reverse() =~= input.reverse(),
        decreases rest.len(),
    {
        let ghost before_rest = keyed_view(rest@);
        let ghost before_rev = keyed_view(rev@);
        let item = rest.pop().unwrap();
        proof {
            assert(keyed_view(rest@) =~= before_rest.drop_last());
            assert(before_rest.reverse() =~= seq![before_rest.last()] + before_rest.drop_last().reverse());
        }
        rev.push(item);
        assert(keyed_view(rev@) =~= before_rev.push(before_rest.last()));
    }
    assert(keyed_view(rev@) =~= input.reverse());
    let n = rev.len();
    let mut done: usize = 0;
    while rev.len() > 0
        invariant
            rev@.len() + done == n,
            n == input.len(),
            keyed_view(rev@) =~= input.subrange(done as int, n as int).reverse(),
            keyed_view(result@) == stable_sort(input.subrange(0, done as int)),
        decreases rev.len(),
    {
        let ghost before_rev = keyed_view(rev@);
        let item = rev.pop().unwrap();
        proof {
            let sub = input.subrange(done as int, n as int);
            assert(sub.reverse().last() == sub[0]);
            assert(keyed_view(rev@) =~= before_rev.drop_last());
            assert(input.subrange(done + 1, n as int).reverse() =~= sub.reverse().drop_last());
        }
        let ghost r0 = keyed_view(result@);
        let ghost x = (item.0@, item.1);
        let mut p = result.len();
        assert(r0.subrange(0, p as int) =~= r0);
        while p > 0 && lex_less(&item.0, &result[p - 1].0)
            invariant
                p <= result@.len(),
                keyed_view(result@) == r0,
                stable_pos(r0, x.0) == stable_pos(r0.subrange(0, p as int), x.0),
                x.0 == item.0@,
            decreases p,
        {
            proof {
                let t = r0.subrange(0, p as int);
                assert(t.last() == r0[p - 1]);
                assert(r0[p - 1].0 == result@[p - 1].0@);
                assert(t.drop_last() =~= r0.subrange(0, p - 1));
            }
            p = p - 1;
        }
        proof {
            let t = r0.subrange(0, p as int);
            if p > 0 {
                assert(t.last() == r0[p - 1]);
                assert(r0[p - 1].0 == result@[p - 1].0@);
            }
            assert(stable_pos(t, x.0) == p);
            let pre = input.subrange(0, done as int);
            let post = input.subrange(0, done + 1);
            assert(post.drop_last() =~= pre);
            assert(post.last() == input[done as int]);
            assert(input[done as int] == x);
        }
        result.insert(p, item);
        done = done + 1;
        assert(keyed_view(result@) =~= r0.insert(stable_pos(r0, x.0), x));
    }
    assert(input.subrange(0, n as int) =~= input);
    result
}

} // verus!
