//! Stable ordering by a descending rank.
//!
//! A declutter report lists its suggestions largest first, ties in the
//! order they were found. `sort_desc` is the mathematical statement
//! (insertion of each element, in input order, after all earlier elements
//! of greater or equal rank); `stable_sort_desc` computes it.

use vstd::prelude::*;

verus! {

/// A value with an integer rank that an executable comparison can test.
pub trait Ranked: Sized {
    spec fn rank(&self) -> int;

    fn rank_ge(&self, other: &Self) -> (b: bool)
        ensures
            b == (self.rank() >= other.rank()),
    ;
}

pub open spec fn rank_fn<T: Ranked>() -> spec_fn(T) -> int {
    |x: T| x.rank()
}

/// Index at which `x` goes: after every leading element of rank >= `rank(x)`.
pub open spec fn insert_pos<T>(s: Seq<T>, x: T, rank: spec_fn(T) -> int) -> nat
    decreases s.len(),
{
    if s.len() == 0 || rank(s[0]) < rank(x) {
        0
    } else {
        1 + insert_pos(s.drop_first(), x, rank)
    }
}

/// Stable sort by descending rank: ties keep their input order.
pub open spec fn sort_desc<T>(s: Seq<T>, rank: spec_fn(T) -> int) -> Seq<T>
    decreases s.len(),
{
    if s.len() == 0 {
        s
    } else {
        let r = sort_desc(s.drop_last(), rank);
        r.insert(insert_pos(r, s.last(), rank) as int, s.last())
    }
}

pub open spec fn is_sorted_desc<T>(s: Seq<T>, rank: spec_fn(T) -> int) -> bool {
    forall|i: int, j: int| 0 <= i < j < s.len() ==> rank(s[i]) >= rank(s[j])
}

pub proof fn lemma_insert_pos_bound<T>(s: Seq<T>, x: T, rank: spec_fn(T) -> int)
    ensures
        insert_pos(s, x, rank) <= s.len(),
        forall|j: int| 0 <= j < insert_pos(s, x, rank) ==> rank(#[trigger] s[j]) >= rank(x),
        insert_pos(s, x, rank) < s.len() ==> rank(s[insert_pos(s, x, rank) as int]) < rank(x),
    decreases s.len(),
{
    if s.len() > 0 && rank(s[0]) >= rank(x) {
        let d = s.drop_first();
        lemma_insert_pos_bound(d, x, rank);
        assert forall|j: int| 0 <= j < insert_pos(s, x, rank) implies rank(#[trigger] s[j]) >= rank(
            x,
        ) by {
            if j > 0 {
                assert(s[j] == d[j - 1]);
            }
        }
        if insert_pos(s, x, rank) < s.len() {
            assert(s[insert_pos(s, x, rank) as int] == d[insert_pos(d, x, rank) as int]);
        }
    }
}

proof fn lemma_insert_pos_is<T>(s: Seq<T>, x: T, rank: spec_fn(T) -> int, p: int)
    requires
        0 <= p <= s.len(),
        forall|j: int| 0 <= j < p ==> rank(#[trigger] s[j]) >= rank(x),
        p == s.len() || rank(s[p]) < rank(x),
    ensures
        insert_pos(s, x, rank) == p,
    decreases p,
{
    if p > 0 {
        let d = s.drop_first();
        assert(rank(s[0]) >= rank(x));
        assert forall|j: int| 0 <= j < p - 1 implies rank(#[trigger] d[j]) >= rank(x) by {
            assert(d[j] == s[j + 1]);
        }
        if p - 1 < d.len() {
            assert(d[p - 1] == s[p]);
        }
        lemma_insert_pos_is(d, x, rank, p - 1);
    }
}

pub proof fn lemma_sort_len<T>(s: Seq<T>, rank: spec_fn(T) -> int)
    ensures
        sort_desc(s, rank).len() == s.len(),
    decreases s.len(),
{
    if s.len() > 0 {
        let r = sort_desc(s.drop_last(), rank);
        lemma_sort_len(s.drop_last(), rank);
        lemma_insert_pos_bound(r, s.last(), rank);
    }
}

/// The result of `sort_desc` is ordered by descending rank.
pub proof fn lemma_sort_sorted<T>(s: Seq<T>, rank: spec_fn(T) -> int)
    ensures
        is_sorted_desc(sort_desc(s, rank), rank),
    decreases s.len(),
{
    if s.len() > 0 {
        let r = sort_desc(s.drop_last(), rank);
        let x = s.last();
        lemma_sort_sorted(s.drop_last(), rank);
        lemma_insert_pos_bound(r, x, rank);
        let p = insert_pos(r, x, rank) as int;
        let n = r.insert(p, x);
        assert forall|i: int, j: int| 0 <= i < j < n.len() implies rank(n[i]) >= rank(n[j]) by {
            if j < p {
                assert(n[i] == r[i] && n[j] == r[j]);
            } else if j == p {
                assert(n[i] == r[i]);
            } else if i < p {
                assert(n[i] == r[i] && n[j] == r[j - 1]);
                assert(rank(r[i]) >= rank(r[p]));
                if p < r.len() {
                    assert(rank(r[p]) >= rank(r[j - 1]));
                }
            } else if i == p {
                assert(n[j] == r[j - 1]);
                assert(rank(r[p]) < rank(x));
                assert(rank(r[p]) >= rank(r[j - 1]));
            } else {
                assert(n[i] == r[i - 1] && n[j] == r[j - 1]);
            }
        }
    }
}

/// `sort_desc` rearranges its input: the same elements, with the same counts.
pub proof fn lemma_sort_permutes<T>(s: Seq<T>, rank: spec_fn(T) -> int)
    ensures
        sort_desc(s, rank).to_multiset() == s.to_multiset(),
    decreases s.len(),
{
    broadcast use vstd::seq_lib::group_to_multiset_ensures;

    if s.len() > 0 {
        let d = s.drop_last();
        let r = sort_desc(d, rank);
        let x = s.last();
        lemma_sort_permutes(d, rank);
        lemma_insert_pos_bound(r, x, rank);
        let p = insert_pos(r, x, rank) as int;
        vstd::seq_lib::lemma_seq_union_to_multiset_commutative(r.take(p), r.skip(p));
        assert(r =~= r.take(p) + r.skip(p));
        assert(r.insert(p, x) =~= r.take(p) + (seq![x] + r.skip(p)));
        vstd::seq_lib::lemma_multiset_commutative(r.take(p), seq![x] + r.skip(p));
        vstd::seq_lib::lemma_multiset_commutative(seq![x], r.skip(p));
        vstd::seq_lib::lemma_multiset_commutative(r.take(p), r.skip(p));
        assert(s =~= d.push(x));
    }
}

/// Mapping commutes with the sort when the map keeps every rank.
pub proof fn lemma_sort_map<T, U>(
    s: Seq<T>,
    rank_t: spec_fn(T) -> int,
    f: spec_fn(T) -> U,
    rank_u: spec_fn(U) -> int,
)
    requires
        forall|x: T| #[trigger] rank_u(f(x)) == rank_t(x),
    ensures
        sort_desc(s.map_values(f), rank_u) == sort_desc(s, rank_t).map_values(f),
    decreases s.len(),
{
    if s.len() > 0 {
        let d = s.drop_last();
        lemma_sort_map(d, rank_t, f, rank_u);
        assert(s.map_values(f).drop_last() =~= d.map_values(f));
        let r = sort_desc(d, rank_t);
        let x = s.last();
        lemma_insert_pos_map(r, x, rank_t, f, rank_u);
        lemma_insert_pos_bound(r, x, rank_t);
        let p = insert_pos(r, x, rank_t) as int;
        assert(r.insert(p, x).map_values(f) =~= r.map_values(f).insert(p, f(x)));
    }
}

proof fn lemma_insert_pos_map<T, U>(
    s: Seq<T>,
    x: T,
    rank_t: spec_fn(T) -> int,
    f: spec_fn(T) -> U,
    rank_u: spec_fn(U) -> int,
)
    requires
        forall|y: T| #[trigger] rank_u(f(y)) == rank_t(y),
    ensures
        insert_pos(s.map_values(f), f(x), rank_u) == insert_pos(s, x, rank_t),
    decreases s.len(),
{
    if s.len() > 0 {
        assert(s.map_values(f).drop_first() =~= s.drop_first().map_values(f));
        assert(rank_u(f(s[0])) == rank_t(s[0]));
        assert(rank_u(f(x)) == rank_t(x));
        lemma_insert_pos_map(s.drop_first(), x, rank_t, f, rank_u);
    }
}

/// Stable sort of `v` by descending rank.
pub fn stable_sort_desc<T: Ranked>(v: Vec<T>) -> (r: Vec<T>)
    ensures
        r@ == sort_desc(v@, rank_fn::<T>()),
{
    let ghost orig = v@;
    let ghost rk = rank_fn::<T>();
    let n = v.len();
    assert(orig.len() == n);
    let mut input = v;
    let mut out: Vec<T> = Vec::new();
    let mut k: usize = 0;
    assert(orig.take(0) =~= Seq::<T>::empty());
    while input.len() > 0
        invariant
            k <= orig.len() <= usize::MAX,
            input@ == orig.skip(k as int),
            out@ == sort_desc(orig.take(k as int), rk),
            rk == rank_fn::<T>(),
        decreases input.len(),
    {
        let x = input.remove(0);
        assert(x == orig[k as int]);
        let mut p: usize = 0;
        while p < out.len() && out[p].rank_ge(&x)
            invariant
                p <= out.len(),
                rk == rank_fn::<T>(),
                forall|j: int| 0 <= j < p ==> rk(#[trigger] out@[j]) >= rk(x),
            decreases out.len() - p,
        {
            p = p + 1;
        }
        proof {
            lemma_insert_pos_is(out@, x, rk, p as int);
            assert(orig.take(k + 1).drop_last() =~= orig.take(k as int));
            assert(orig.skip(k as int).drop_first() =~= orig.skip(k + 1));
        }
        out.insert(p, x);
        k = k + 1;
    }
    assert(orig.take(k as int) =~= orig);
    out
}

} // verus!
