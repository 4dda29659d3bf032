//! Ordering strings, and stable ordering by a numeric key.
use vstd::prelude::*;

use crate::text::views;

verus! {

broadcast use vstd::seq_lib::group_to_multiset_ensures;

/// `a` comes before `b` in the order of `str`'s `Ord` (code point by code
/// point, a proper prefix first).
pub open spec fn lex_lt(a: Seq<char>, b: Seq<char>) -> bool
    decreases a.len(),
{
    if a.len() == 0 {
        b.len() > 0
    } else if b.len() == 0 {
        false
    } else if a[0] != b[0] {
        (a[0] as u32) < (b[0] as u32)
    } else {
        lex_lt(a.drop_first(), b.drop_first())
    }
}

pub open spec fn lex_le(a: Seq<char>, b: Seq<char>) -> bool {
    a == b || lex_lt(a, b)
}

/// The strings are in non-decreasing order.
pub open spec fn sorted_strs(s: Seq<Seq<char>>) -> bool {
    forall|i: int, j: int| 0 <= i < j < s.len() ==> lex_le(#[trigger] s[i], #[trigger] s[j])
}

pub proof fn lemma_lex_irrefl(a: Seq<char>)
    ensures
        !lex_lt(a, a),
    decreases a.len(),
{
    if a.len() > 0 {
        lemma_lex_irrefl(a.drop_first());
    }
}

pub proof fn lemma_lex_total(a: Seq<char>, b: Seq<char>)
    ensures
        a == b || lex_lt(a, b) || lex_lt(b, a),
    decreases a.len(),
{
    if a.len() > 0 && b.len() > 0 && a[0] == b[0] {
        lemma_lex_total(a.drop_first(), b.drop_first());
        if a.drop_first() == b.drop_first() {
            assert(a =~= seq![a[0]] + a.drop_first());
            assert(b =~= seq![b[0]] + b.drop_first());
        }
    } else if a.len() == 0 && b.len() == 0 {
        assert(a =~= b);
    } else if a.len() > 0 && b.len() > 0 {
        let x = a[0] as u32;
        let y = b[0] as u32;
        assert(x != y) by {
            vstd::utf8::char_u32_cast(a[0], x);
            vstd::utf8::char_u32_cast(b[0], y);
        }
    }
}

pub proof fn lemma_lex_asym(a: Seq<char>, b: Seq<char>)
    ensures
        !(lex_lt(a, b) && lex_lt(b, a)),
    decreases a.len(),
{
    if a.len() > 0 && b.len() > 0 && a[0] == b[0] {
        lemma_lex_asym(a.drop_first(), b.drop_first());
    }
}

pub proof fn lemma_lex_trans(a: Seq<char>, b: Seq<char>, c: Seq<char>)
    requires
        lex_lt(a, b),
        lex_lt(b, c),
    ensures
        lex_lt(a, c),
    decreases a.len(),
{
    if a.len() > 0 && b.len() > 0 && c.len() > 0 && a[0] == b[0] && b[0] == c[0] {
        lemma_lex_trans(a.drop_first(), b.drop_first(), c.drop_first());
    }
}

/// Whether `a` comes before `b`.
pub fn str_lt(a: &Vec<char>, b: &Vec<char>) -> (r: bool)
    ensures
        r == lex_lt(a@, b@),
{
    let mut i: usize = 0;
    proof {
        assert(a@.skip(0) =~= a@);
        assert(b@.skip(0) =~= b@);
    }
    while i < a.len() && i < b.len() && a[i] == b[i]
        invariant
            i <= a.len(),
            i <= b.len(),
            forall|k: int| 0 <= k < i ==> a@[k] == b@[k],
            lex_lt(a@, b@) == lex_lt(a@.skip(i as int), b@.skip(i as int)),
        decreases a.len() - i,
    {
        proof {
            assert(a@.skip(i as int).drop_first() =~= a@.skip(i + 1));
            assert(b@.skip(i as int).drop_first() =~= b@.skip(i + 1));
        }
        i = i + 1;
    }
    if i == a.len() {
        i < b.len()
    } else if i == b.len() {
        false
    } else {
        (a[i] as u32) < (b[i] as u32)
    }
}

/// Sorts strings into `str` order.
pub fn sort_strings(v: Vec<String>) -> (r: Vec<String>)
    ensures
        sorted_strs(views(r@)),
        views(r@).to_multiset() == views(v@).to_multiset(),
{
    let mut out: Vec<String> = Vec::new();
    let mut keys: Vec<Vec<char>> = Vec::new();
    let mut i: usize = 0;
    proof {
        assert(views(v@).take(0) =~= Seq::<Seq<char>>::empty());
        assert(views(out@) =~= Seq::<Seq<char>>::empty());
    }
    while i < v.len()
        invariant
            i <= v.len(),
            keys@.len() == out@.len(),
            forall|k: int| 0 <= k < out@.len() ==> #[trigger] keys@[k]@ == out@[k]@,
            sorted_strs(views(out@)),
            views(out@).to_multiset() == views(v@).take(i as int).to_multiset(),
        decreases v.len() - i,
    {
        let x = v[i].clone();
        let xk = crate::text::to_chars(x.as_str());
        let mut p: usize = 0;
        while p < out.len() && !str_lt(&xk, &keys[p])
            invariant
                p <= out@.len(),
                keys@.len() == out@.len(),
                forall|k: int| 0 <= k < out@.len() ==> #[trigger] keys@[k]@ == out@[k]@,
                forall|k: int| 0 <= k < p ==> !lex_lt(xk@, #[trigger] out@[k]@),
            decreases out.len() - p,
        {
            p = p + 1;
        }
        let ghost old_views = views(out@);
        proof {
            assert forall|k: int| 0 <= k < p implies lex_le(#[trigger] old_views[k], x@) by {
                lemma_lex_total(old_views[k], x@);
            }
            assert forall|k: int| p <= k < old_views.len() implies lex_lt(x@, #[trigger] old_views[k]) by {
                if k > p {
                    let a = old_views[p as int];
                    assert(lex_le(a, old_views[k]));
                    if a != old_views[k] {
                        lemma_lex_trans(x@, a, old_views[k]);
                    }
                }
            }
        }
        out.insert(p, x);
        keys.insert(p, xk);
        proof {
            let nv = views(out@);
            assert(nv =~= old_views.insert(p as int, x@));
            assert forall|a: int, b: int| 0 <= a < b < nv.len() implies lex_le(#[trigger] nv[a], #[trigger] nv[b]) by {
                if a < p && b > p {
                    let m = old_views[a];
                    let n = old_views[b - 1];
                    if m != x@ && x@ != n {
                        lemma_lex_trans(m, x@, n);
                    }
                }
            }
            vstd::seq_lib::to_multiset_insert(old_views, p as int, x@);
            assert(views(v@).take(i + 1) =~= views(v@).take(i as int).push(x@));
            assert forall|k: int| 0 <= k < out@.len() implies #[trigger] keys@[k]@ == out@[k]@ by {
                if k < p {
                } else if k > p {
                } 
            }
        }
        i = i + 1;
    }
    proof {
        assert(views(v@).take(v@.len() as int) =~= views(v@));
    }
    out
}

/// `r` lists the indices `0..n`, each once.
pub open spec fn is_index_permutation(r: Seq<usize>, n: nat) -> bool {
    &&& r.len() == n
    &&& forall|a: int| 0 <= a < r.len() ==> #[trigger] r[a] < n
    &&& forall|a: int, b: int| 0 <= a < b < r.len() ==> #[trigger] r[a] != #[trigger] r[b]
}

/// Index `x` comes before index `y` in a stable sort by `keys`, ascending or
/// descending: by key first, then by position.
pub open spec fn stable_before(keys: Seq<u128>, descending: bool, x: usize, y: usize) -> bool {
    if keys[x as int] == keys[y as int] {
        x < y
    } else if descending {
        keys[x as int] > keys[y as int]
    } else {
        keys[x as int] < keys[y as int]
    }
}

/// The order in which a stable sort by `keys` puts the positions `0..n`.
pub open spec fn is_stable_order(r: Seq<usize>, keys: Seq<u128>, descending: bool) -> bool {
    &&& is_index_permutation(r, keys.len())
    &&& forall|a: int, b: int|
        0 <= a < b < r.len() ==> stable_before(keys, descending, #[trigger] r[a], #[trigger] r[b])
}

/// The positions `0..keys.len()` in the order of a stable sort by `keys`
/// (`sort_by_key`, or `sort_by` with the comparison reversed when
/// `descending`).
pub fn stable_order(keys: &Vec<u128>, descending: bool) -> (r: Vec<usize>)
    ensures
        is_stable_order(r@, keys@, descending),
{
    let mut r: Vec<usize> = Vec::new();
    let mut i: usize = 0;
    while i < keys.len()
        invariant
            i <= keys.len(),
            r@.len() == i,
            forall|a: int| 0 <= a < r@.len() ==> #[trigger] r@[a] < i,
            forall|a: int, b: int| 0 <= a < b < r@.len() ==> #[trigger] r@[a] != #[trigger] r@[b],
            forall|a: int, b: int|
                0 <= a < b < r@.len() ==> stable_before(keys@, descending, #[trigger] r@[a], #[trigger] r@[b]),
        decreases keys.len() - i,
    {
        let ki = keys[i];
        let mut p: usize = 0;
        while p < r.len() && ((descending && keys[r[p]] >= ki) || (!descending && keys[r[p]] <= ki))
            invariant
                p <= r@.len(),
                i < keys@.len(),
                ki == keys@[i as int],
                forall|a: int| 0 <= a < r@.len() ==> #[trigger] r@[a] < i,
                forall|a: int| 0 <= a < p ==> stable_before(keys@, descending, #[trigger] r@[a], i),
            decreases r.len() - p,
        {
            p = p + 1;
        }
        let ghost old_r = r@;
        proof {
            assert forall|a: int| p <= a < old_r.len() implies stable_before(keys@, descending, i, #[trigger] old_r[a]) by {
                if a > p {
                    assert(stable_before(keys@, descending, old_r[p as int], old_r[a]));
                }
            }
        }
        r.insert(p, i);
        proof {
            assert(r@ =~= old_r.insert(p as int, i));
            assert forall|a: int, b: int| 0 <= a < b < r@.len() implies #[trigger] r@[a] != #[trigger] r@[b] by {
                if a < p && b > p {
                    assert(r@[a] == old_r[a] && r@[b] == old_r[b - 1]);
                } else if a == p {
                    assert(r@[b] == old_r[b - 1]);
                } else if b == p {
                    assert(r@[a] == old_r[a]);
                } else if b < p {
                } else {
                    assert(r@[a] == old_r[a - 1] && r@[b] == old_r[b - 1]);
                }
            }
            assert forall|a: int, b: int| 0 <= a < b < r@.len() implies stable_before(keys@, descending, #[trigger] r@[a], #[trigger] r@[b]) by {
                if a < p && b > p {
                    assert(r@[a] == old_r[a] && r@[b] == old_r[b - 1]);
                    assert(stable_before(keys@, descending, old_r[a], old_r[b - 1]));
                } else if a == p {
                    assert(r@[b] == old_r[b - 1]);
                } else if b == p {
                    assert(r@[a] == old_r[a]);
                } else if b < p {
                } else {
                    assert(r@[a] == old_r[a - 1] && r@[b] == old_r[b - 1]);
                }
            }
        }
        i = i + 1;
    }
    r
}

} // verus!
