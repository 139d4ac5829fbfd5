//! Code point order on texts, as `String`'s `Ord` gives it, and sorted lists of
//! distinct texts.

use vstd::prelude::*;
use crate::text::deep;

verus! {

/// `a` comes strictly before `b` in lexicographic order of code points, the order
/// in which `String`'s `Ord` places texts (UTF-8 keeps the order of code points).
pub open spec fn lex_lt(a: Seq<char>, b: Seq<char>) -> bool
    decreases a.len(),
{
    if b.len() == 0 {
        false
    } else if a.len() == 0 {
        true
    } else if (a[0] as u32) < (b[0] as u32) {
        true
    } else if a[0] == b[0] {
        lex_lt(a.drop_first(), b.drop_first())
    } else {
        false
    }
}

/// No text comes before itself, and of two texts at most one comes first.
pub proof fn lemma_lex_asym(a: Seq<char>, b: Seq<char>)
    ensures
        !(lex_lt(a, b) && lex_lt(b, a)),
        !lex_lt(a, a),
    decreases a.len(),
{
    if a.len() > 0 && b.len() > 0 {
        lemma_lex_asym(a.drop_first(), b.drop_first());
    }
    if a.len() > 0 {
        lemma_lex_asym(a.drop_first(), a.drop_first());
    }
}

/// The order is transitive.
pub proof fn lemma_lex_trans(a: Seq<char>, b: Seq<char>, c: Seq<char>)
    requires
        lex_lt(a, b),
        lex_lt(b, c),
    ensures
        lex_lt(a, c),
    decreases a.len(),
{
    if a.len() > 0 && b.len() > 0 && c.len() > 0 && a[0] == b[0] && b[0] == c[0] {
        lemma_lex_trans(a.drop_first(), b.drop_first(), c.drop_first());
    }
}

/// Of two different texts one comes first.
pub proof fn lemma_lex_total(a: Seq<char>, b: Seq<char>)
    requires
        a != b,
    ensures
        lex_lt(a, b) || lex_lt(b, a),
    decreases a.len(),
{
    if a.len() == 0 && b.len() == 0 {
        assert(a =~= b);
    }
    if a.len() > 0 && b.len() > 0 && a[0] != b[0] {
        vstd::utf8::char_u32_cast(a[0], a[0] as u32);
        vstd::utf8::char_u32_cast(b[0], b[0] as u32);
    }
    if a.len() > 0 && b.len() > 0 && a[0] == b[0] {
        if a.drop_first() == b.drop_first() {
            assert(a =~= seq![a[0]] + a.drop_first());
            assert(b =~= seq![b[0]] + b.drop_first());
        }
        lemma_lex_total(a.drop_first(), b.drop_first());
    }
}

/// Tests whether `a` comes strictly before `b`.
pub fn lex_less(a: &Vec<char>, b: &Vec<char>) -> (r: bool)
    ensures
        r == lex_lt(a@, b@),
{
    let mut i: usize = 0;
    assert(a@.skip(0) =~= a@);
    assert(b@.skip(0) =~= b@);
    while i < a.len() && i < b.len()
        invariant
            i <= a.len(),
            i <= b.len(),
            lex_lt(a@, b@) == lex_lt(a@.skip(i as int), b@.skip(i as int)),
        decreases a.len() - i,
    {
        let ghost sa = a@.skip(i as int);
        let ghost sb = b@.skip(i as int);
        assert(sa[0] == a@[i as int]);
        assert(sb[0] == b@[i as int]);
        if (a[i] as u32) < (b[i] as u32) {
            return true;
        }
        if a[i] != b[i] {
            return false;
        }
        assert(sa.drop_first() =~= a@.skip(i + 1));
        assert(sb.drop_first() =~= b@.skip(i + 1));
        i = i + 1;
    }
    i < b.len()
}

/// Every text of `s` comes strictly before every later one: sorted, no text twice.
pub open spec fn strictly_sorted(s: Seq<Seq<char>>) -> bool {
    forall|i: int, j: int| 0 <= i < j < s.len() ==> lex_lt(#[trigger] s[i], #[trigger] s[j])
}

/// Inserts `x` into a strictly sorted list unless it is there already.
pub fn insert_sorted(v: &mut Vec<Vec<char>>, x: Vec<char>)
    requires
        strictly_sorted(deep(old(v)@)),
    ensures
        strictly_sorted(deep(final(v)@)),
        forall|y: Seq<char>| #[trigger]
            deep(final(v)@).contains(y) <==> (deep(old(v)@).contains(y) || y == x@),
{
    let ghost old_v = deep(v@);
    let mut i: usize = 0;
    while i < v.len() && lex_less(&v[i], &x)
        invariant
            i <= v.len(),
            deep(v@) == old_v,
            forall|k: int| 0 <= k < i ==> lex_lt(#[trigger] old_v[k], x@),
        decreases v.len() - i,
    {
        i = i + 1;
    }
    if i < v.len() && crate::text::same_chars(&v[i], &x) {
        assert(old_v[i as int] == x@);
        return;
    }
    proof {
        if i < v.len() {
            assert(old_v[i as int] == v@[i as int]@);
            lemma_lex_total(x@, old_v[i as int]);
        }
    }
    let ghost xv = x@;
    v.insert(i, x);
    proof {
        let nv = deep(v@);
        assert(nv =~= old_v.insert(i as int, xv));
        assert forall|a: int, b: int| 0 <= a < b < nv.len() implies lex_lt(
            #[trigger] nv[a],
            #[trigger] nv[b],
        ) by {
            if b < i {
            } else if a < i && b == i {
            } else if a < i && b > i {
                assert(nv[b] == old_v[b - 1]);
            } else if a == i {
                assert(nv[b] == old_v[b - 1]);
                if b - 1 > i {
                    lemma_lex_trans(xv, old_v[i as int], old_v[b - 1]);
                }
            } else {
                assert(nv[a] == old_v[a - 1]);
                assert(nv[b] == old_v[b - 1]);
            }
        }
        assert forall|y: Seq<char>| #[trigger] nv.contains(y) <==> (old_v.contains(y) || y
            == xv) by {
            if nv.contains(y) {
                let k = choose|k: int| 0 <= k < nv.len() && nv[k] == y;
                if k < i {
                    assert(old_v[k] == y);
                } else if k > i {
                    assert(old_v[k - 1] == y);
                }
            }
            if old_v.contains(y) {
                let k = choose|k: int| 0 <= k < old_v.len() && old_v[k] == y;
                if k < i {
                    assert(nv[k] == y);
                } else {
                    assert(nv[k + 1] == y);
                }
            }
            if y == xv {
                assert(nv[i as int] == y);
            }
        }
    }
}

/// The least text of a strictly sorted list comes before every other text of it.
pub proof fn lemma_sorted_first_least(s: Seq<Seq<char>>, y: Seq<char>)
    requires
        strictly_sorted(s),
        s.contains(y),
    ensures
        s[0] == y || lex_lt(s[0], y),
{
    let k = choose|k: int| 0 <= k < s.len() && s[k] == y;
    if k > 0 {
        assert(lex_lt(s[0], s[k]));
    }
}

/// A strictly sorted list is fixed by the texts it holds: two such lists with the
/// same texts are the same list.
pub proof fn lemma_sorted_unique(s: Seq<Seq<char>>, t: Seq<Seq<char>>)
    requires
        strictly_sorted(s),
        strictly_sorted(t),
        forall|y: Seq<char>| s.contains(y) <==> t.contains(y),
    ensures
        s == t,
    decreases s.len(),
{
    if s.len() == 0 {
        if t.len() > 0 {
            assert(t.contains(t[0]));
        }
        assert(s =~= t);
    } else {
        assert(s.contains(s[0]));
        assert(t.len() > 0);
        assert(t.contains(t[0]));
        lemma_sorted_first_least(s, t[0]);
        lemma_sorted_first_least(t, s[0]);
        lemma_lex_asym(s[0], t[0]);
        assert(s[0] == t[0]);
        let s1 = s.drop_first();
        let t1 = t.drop_first();
        assert forall|y: Seq<char>| s1.contains(y) <==> t1.contains(y) by {
            if s1.contains(y) {
                let k = choose|k: int| 0 <= k < s1.len() && s1[k] == y;
                assert(s[k + 1] == y);
                assert(lex_lt(s[0], s[k + 1]));
                lemma_lex_asym(y, y);
                assert(t.contains(y));
                let m = choose|m: int| 0 <= m < t.len() && t[m] == y;
                assert(m != 0);
                assert(t1[m - 1] == y);
            }
            if t1.contains(y) {
                let k = choose|k: int| 0 <= k < t1.len() && t1[k] == y;
                assert(t[k + 1] == y);
                assert(lex_lt(t[0], t[k + 1]));
                lemma_lex_asym(y, y);
                assert(s.contains(y));
                let m = choose|m: int| 0 <= m < s.len() && s[m] == y;
                assert(m != 0);
                assert(s1[m - 1] == y);
            }
        }
        assert forall|i: int, j: int| 0 <= i < j < s1.len() implies lex_lt(
            #[trigger] s1[i],
            #[trigger] s1[j],
        ) by {
            assert(s1[i] == s[i + 1]);
            assert(s1[j] == s[j + 1]);
        }
        assert forall|i: int, j: int| 0 <= i < j < t1.len() implies lex_lt(
            #[trigger] t1[i],
            #[trigger] t1[j],
        ) by {
            assert(t1[i] == t[i + 1]);
            assert(t1[j] == t[j + 1]);
        }
        lemma_sorted_unique(s1, t1);
        assert(s =~= seq![s[0]] + s1);
        assert(t =~= seq![t[0]] + t1);
    }
}

/// The texts of `s` in code point order, each once.
pub open spec fn sorted_distinct(s: Seq<Seq<char>>) -> Seq<Seq<char>> {
    choose|r: Seq<Seq<char>>|
        strictly_sorted(r) && (forall|y: Seq<char>| #[trigger] r.contains(y) <==> s.contains(y))
}

/// `x` placed into a sorted list of texts, unless it is there already.
pub open spec fn insert_text(r: Seq<Seq<char>>, x: Seq<char>) -> Seq<Seq<char>>
    decreases r.len(),
{
    if r.len() == 0 {
        seq![x]
    } else if r[0] == x {
        r
    } else if lex_lt(x, r[0]) {
        seq![x] + r
    } else {
        seq![r[0]] + insert_text(r.drop_first(), x)
    }
}

/// Placing a text into a strictly sorted list keeps it strictly sorted and adds just
/// that text.
proof fn lemma_insert_text(r: Seq<Seq<char>>, x: Seq<char>)
    requires
        strictly_sorted(r),
    ensures
        strictly_sorted(insert_text(r, x)),
        forall|y: Seq<char>| #[trigger] insert_text(r, x).contains(y) <==> (r.contains(y) || y == x),
        insert_text(r, x).len() > 0,
        insert_text(r, x)[0] == x || (r.len() > 0 && insert_text(r, x)[0] == r[0]),
    decreases r.len(),
{
    let t = insert_text(r, x);
    if r.len() == 0 {
        assert(t =~= seq![x]);
        assert forall|y: Seq<char>| #[trigger] t.contains(y) <==> (r.contains(y) || y == x) by {
            if t.contains(y) {
                assert(t[0] == y);
            }
            if y == x {
                assert(t[0] == y);
            }
        }
    } else if r[0] == x {
        assert forall|y: Seq<char>| #[trigger] t.contains(y) <==> (r.contains(y) || y == x) by {
            if y == x {
                assert(r[0] == y);
            }
        }
    } else if lex_lt(x, r[0]) {
        assert forall|a: int, b: int| 0 <= a < b < t.len() implies lex_lt(#[trigger] t[a], #[trigger] t[b]) by {
            if a == 0 {
                if b > 1 {
                    lemma_lex_trans(x, r[0], r[b - 1]);
                }
            } else {
                assert(t[a] == r[a - 1] && t[b] == r[b - 1]);
            }
        }
        assert forall|y: Seq<char>| #[trigger] t.contains(y) <==> (r.contains(y) || y == x) by {
            if t.contains(y) {
                let k = choose|k: int| 0 <= k < t.len() && t[k] == y;
                if k > 0 {
                    assert(r[k - 1] == y);
                }
            }
            if r.contains(y) {
                let k = choose|k: int| 0 <= k < r.len() && r[k] == y;
                assert(t[k + 1] == y);
            }
            if y == x {
                assert(t[0] == y);
            }
        }
    } else {
        let r1 = r.drop_first();
        assert forall|a: int, b: int| 0 <= a < b < r1.len() implies lex_lt(#[trigger] r1[a], #[trigger] r1[b]) by {
            assert(r1[a] == r[a + 1] && r1[b] == r[b + 1]);
        }
        lemma_insert_text(r1, x);
        let t1 = insert_text(r1, x);
        lemma_lex_total(x, r[0]);
        assert(t =~= seq![r[0]] + t1);
        assert forall|a: int, b: int| 0 <= a < b < t.len() implies lex_lt(#[trigger] t[a], #[trigger] t[b]) by {
            if a == 0 {
                assert(t[b] == t1[b - 1]);
                assert(t1.contains(t1[b - 1]));
                if t1[b - 1] != x {
                    let k = choose|k: int| 0 <= k < r1.len() && r1[k] == t1[b - 1];
                    assert(r[k + 1] == t1[b - 1]);
                }
            } else {
                assert(t[a] == t1[a - 1] && t[b] == t1[b - 1]);
            }
        }
        assert forall|y: Seq<char>| #[trigger] t.contains(y) <==> (r.contains(y) || y == x) by {
            if t.contains(y) {
                let k = choose|k: int| 0 <= k < t.len() && t[k] == y;
                if k > 0 {
                    assert(t1.contains(t1[k - 1]));
                    if y != x {
                        let m = choose|m: int| 0 <= m < r1.len() && r1[m] == y;
                        assert(r[m + 1] == y);
                    }
                }
            }
            if r.contains(y) {
                let k = choose|k: int| 0 <= k < r.len() && r[k] == y;
                if k == 0 {
                    assert(t[0] == y);
                } else {
                    assert(r1[k - 1] == y);
                    assert(t1.contains(y));
                    let m = choose|m: int| 0 <= m < t1.len() && t1[m] == y;
                    assert(t[m + 1] == y);
                }
            }
            if y == x {
                assert(t1.contains(y));
                let m = choose|m: int| 0 <= m < t1.len() && t1[m] == y;
                assert(t[m + 1] == y);
            }
        }
    }
}

/// Every list of texts has a strictly sorted list with the same texts.
pub proof fn lemma_sorted_exists(s: Seq<Seq<char>>)
    ensures
        exists|r: Seq<Seq<char>>|
            strictly_sorted(r) && (forall|y: Seq<char>| #[trigger] r.contains(y) <==> s.contains(y)),
    decreases s.len(),
{
    if s.len() == 0 {
        let r = Seq::<Seq<char>>::empty();
        assert(strictly_sorted(r) && (forall|y: Seq<char>| #[trigger] r.contains(y) <==> s.contains(y)));
    } else {
        lemma_sorted_exists(s.drop_last());
        let r0 = choose|r: Seq<Seq<char>>|
            strictly_sorted(r) && (forall|y: Seq<char>| #[trigger] r.contains(y) <==> s.drop_last().contains(y));
        lemma_insert_text(r0, s.last());
        let r = insert_text(r0, s.last());
        assert forall|y: Seq<char>| #[trigger] r.contains(y) <==> s.contains(y) by {
            if s.contains(y) {
                let k = choose|k: int| 0 <= k < s.len() && s[k] == y;
                if k < s.len() - 1 {
                    assert(s.drop_last()[k] == y);
                }
            }
            if s.drop_last().contains(y) {
                let k = choose|k: int| 0 <= k < s.drop_last().len() && s.drop_last()[k] == y;
                assert(s[k] == y);
            }
            if y == s.last() {
                assert(s[s.len() - 1] == y);
            }
        }
    }
}

} // verus!
