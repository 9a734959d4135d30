//! Putting slides in order.
//!
//! An order is given as a relation `before`: `before(a, b)` says that `a` has
//! to stand before `b`. A type that can be ordered decides that relation for
//! its values, and `sort_ranked` arranges a vector by it alone, so that it
//! serves for keys that are numbers and for keys that are names.

use vstd::prelude::*;

verus! {

/// A type whose values can be put in order.
pub trait Ranked: Sized {
    /// `self` has to stand before `other`.
    spec fn goes_before(&self, other: &Self) -> bool;

    /// Decides whether `self` has to stand before `other`.
    fn precedes(&self, other: &Self) -> (b: bool)
        ensures
            b == self.goes_before(other),
    ;
}

/// The order of a type, as a relation.
pub open spec fn rank<T: Ranked>() -> spec_fn(T, T) -> bool {
    |a: T, b: T| a.goes_before(&b)
}

/// `a` may stand directly before `b`: `a` has to stand before `b`, or at
/// least `b` does not have to stand before `a`.
pub open spec fn in_order<A>(before: spec_fn(A, A) -> bool, a: A, b: A) -> bool {
    before(a, b) || !before(b, a)
}

/// Every element of `s` may stand directly before the next one.
pub open spec fn is_ordered<A>(s: Seq<A>, before: spec_fn(A, A) -> bool) -> bool {
    forall|i: int| 0 <= i < s.len() - 1 ==> in_order(before, #[trigger] s[i], s[i + 1])
}

/// `p` names position `i` somewhere.
pub open spec fn names(p: Seq<int>, i: int) -> bool {
    exists|k: int| 0 <= k < p.len() && #[trigger] p[k] == i
}

/// `p` names each of the positions `0..n` exactly once.
pub open spec fn is_permutation(p: Seq<int>, n: int) -> bool {
    &&& p.len() == n
    &&& forall|k: int| 0 <= k < n ==> 0 <= #[trigger] p[k] < n
    &&& forall|k1: int, k2: int| 0 <= k1 < k2 < n ==> p[k1] != p[k2]
    &&& forall|i: int| 0 <= i < n ==> #[trigger] names(p, i)
}

/// `b` holds the elements of `a` in another order: `b[k]` is `a[p[k]]`.
pub open spec fn is_rearrangement<A>(a: Seq<A>, b: Seq<A>, p: Seq<int>) -> bool {
    &&& is_permutation(p, a.len() as int)
    &&& b.len() == a.len()
    &&& forall|k: int| 0 <= k < b.len() ==> #[trigger] b[k] == a[p[k]]
}

/// Two elements of `b` have changed places against the order they came in,
/// which `p` records, only where the one that came later has to stand before
/// the other.
pub open spec fn keeps_ties<A>(b: Seq<A>, p: Seq<int>, before: spec_fn(A, A) -> bool) -> bool {
    forall|k1: int, k2: int|
        #![trigger p[k1], p[k2]]
        0 <= k1 < k2 < b.len() && p[k1] > p[k2] ==> before(b[k1], b[k2])
}

/// `sorted` is `items` put in order: a rearrangement of it in which every
/// element may stand directly before the next, and in which no two elements
/// changed places without need.
pub open spec fn is_sorting<A>(items: Seq<A>, sorted: Seq<A>, before: spec_fn(A, A) -> bool) -> bool {
    &&& is_ordered(sorted, before)
    &&& exists|p: Seq<int>| is_rearrangement(items, sorted, p) && keeps_ties(sorted, p, before)
}

/// An element put between one that it need not stand before and those that
/// it has to stand before leaves the neighbours in order.
proof fn lemma_insert_keeps_order<A>(
    sorted: Seq<A>,
    x: A,
    at: int,
    before: spec_fn(A, A) -> bool,
)
    requires
        0 <= at <= sorted.len(),
        is_ordered(sorted, before),
        at > 0 ==> !before(x, sorted[at - 1]),
        at < sorted.len() ==> before(x, sorted[at]),
    ensures
        is_ordered(sorted.insert(at, x), before),
{
    let grown = sorted.insert(at, x);
    assert forall|k: int| 0 <= k < grown.len() - 1 implies in_order(
        before,
        #[trigger] grown[k],
        grown[k + 1],
    ) by {}
}

/// A permutation of `0..n` with `n` put in anywhere is one of `0..n + 1`.
proof fn lemma_insert_keeps_permutation(p: Seq<int>, at: int)
    requires
        0 <= at <= p.len(),
        is_permutation(p, p.len() as int),
    ensures
        is_permutation(p.insert(at, p.len() as int), p.len() as int + 1),
{
    let i = p.len() as int;
    let placed = p.insert(at, i);
    assert forall|j: int| 0 <= j < i + 1 implies #[trigger] names(placed, j) by {
        if j < i {
            assert(names(p, j));
            let k0 = choose|k: int| 0 <= k < p.len() && #[trigger] p[k] == j;
            if k0 < at {
                assert(placed[k0] == j);
            } else {
                assert(placed[k0 + 1] == j);
            }
        } else {
            assert(placed[at] == j);
        }
    }
}

/// An element put in behind every element that it has to stand before has
/// changed places only with those.
proof fn lemma_insert_keeps_ties<A>(
    sorted: Seq<A>,
    p: Seq<int>,
    x: A,
    at: int,
    before: spec_fn(A, A) -> bool,
)
    requires
        0 <= at <= sorted.len(),
        p.len() == sorted.len(),
        forall|k: int| 0 <= k < p.len() ==> 0 <= #[trigger] p[k] < p.len(),
        keeps_ties(sorted, p, before),
        forall|k: int| at <= k < sorted.len() ==> before(x, #[trigger] sorted[k]),
    ensures
        keeps_ties(sorted.insert(at, x), p.insert(at, p.len() as int), before),
{
    let i = p.len() as int;
    let grown = sorted.insert(at, x);
    let placed = p.insert(at, i);
    assert forall|k1: int, k2: int|
        #![trigger placed[k1], placed[k2]]
        0 <= k1 < k2 < grown.len() && placed[k1] > placed[k2] implies before(grown[k1], grown[k2]) by {}
}

/// Where `sorted` holds the elements that `p` names, it still does after the
/// next element of `all` was put in.
proof fn lemma_insert_keeps_elements<A>(all: Seq<A>, sorted: Seq<A>, p: Seq<int>, at: int)
    requires
        0 <= at <= sorted.len(),
        p.len() == sorted.len(),
        sorted.len() < all.len(),
        forall|k: int| 0 <= k < sorted.len() ==> #[trigger] sorted[k] == all[p[k]],
    ensures
        forall|k: int|
            0 <= k < sorted.len() + 1 ==> #[trigger] sorted.insert(at, all[sorted.len() as int])[k]
                == all[p.insert(at, sorted.len() as int)[k]],
{
    let i = sorted.len() as int;
    let grown = sorted.insert(at, all[i]);
    let placed = p.insert(at, i);
    assert forall|k: int| 0 <= k < i + 1 implies #[trigger] grown[k] == all[placed[k]] by {}
}

/// Arranges `items` in the order of their type.
pub fn sort_ranked<T: Ranked>(items: Vec<T>) -> (sorted: Vec<T>)
    ensures
        is_sorting(items@, sorted@, rank::<T>()),
{
    let ghost all = items@;
    let ghost before = rank::<T>();
    let mut rest = items;
    let mut sorted: Vec<T> = Vec::new();
    let ghost mut p: Seq<int> = Seq::empty();
    while rest.len() > 0
        invariant
            before == rank::<T>(),
            p.len() == sorted.len(),
            sorted.len() + rest.len() == all.len(),
            rest@ == all.skip(sorted.len() as int),
            is_ordered(sorted@, before),
            is_permutation(p, sorted.len() as int),
            forall|k: int| 0 <= k < sorted.len() ==> #[trigger] sorted@[k] == all[p[k]],
            keeps_ties(sorted@, p, before),
        decreases rest.len(),
    {
        let ghost old_sorted = sorted@;
        let ghost i = sorted.len() as int;
        let x = rest.remove(0);
        let mut at: usize = sorted.len();
        while at > 0 && x.precedes(&sorted[at - 1])
            invariant
                at <= sorted.len(),
                sorted@ == old_sorted,
                before == rank::<T>(),
                forall|k: int| at <= k < sorted.len() ==> before(x, #[trigger] sorted@[k]),
            decreases at,
        {
            at -= 1;
        }
        proof {
            lemma_insert_keeps_order(old_sorted, x, at as int, before);
            lemma_insert_keeps_permutation(p, at as int);
            lemma_insert_keeps_ties(old_sorted, p, x, at as int, before);
            lemma_insert_keeps_elements(all, old_sorted, p, at as int);
            p = p.insert(at as int, i);
        }
        sorted.insert(at, x);
    }
    sorted
}

/// A sorting stays one when every element is replaced by what `f` makes of
/// it, if `after` orders those as `before` orders the elements.
pub proof fn lemma_sorting_maps<A, B>(
    items: Seq<A>,
    sorted: Seq<A>,
    before: spec_fn(A, A) -> bool,
    f: spec_fn(A) -> B,
    after: spec_fn(B, B) -> bool,
)
    requires
        is_sorting(items, sorted, before),
        forall|i: int, j: int|
            0 <= i < items.len() && 0 <= j < items.len() ==> before(
                #[trigger] items[i],
                #[trigger] items[j],
            ) == after(f(items[i]), f(items[j])),
    ensures
        is_sorting(items.map_values(f), sorted.map_values(f), after),
{
    let p = choose|p: Seq<int>| is_rearrangement(items, sorted, p) && keeps_ties(sorted, p, before);
    let fi = items.map_values(f);
    let fs = sorted.map_values(f);
    assert(is_rearrangement(fi, fs, p));
    assert(keeps_ties(fs, p, after));
    assert forall|i: int| 0 <= i < fs.len() - 1 implies in_order(after, #[trigger] fs[i], fs[i + 1]) by {
        assert(in_order(before, sorted[i], sorted[i + 1]));
    }
}

/// `before` puts any two different values in one order, and never in a
/// circle.
pub open spec fn is_strict_total_order<A>(before: spec_fn(A, A) -> bool) -> bool {
    &&& forall|a: A, b: A| #[trigger] before(a, b) ==> !before(b, a)
    &&& forall|a: A, b: A, c: A| #[trigger] before(a, b) && #[trigger] before(b, c) ==> before(a, c)
    &&& forall|a: A, b: A| a == b || #[trigger] before(a, b) || before(b, a)
}

/// No element of `s` has to stand before one that precedes it.
pub open spec fn is_ascending<A>(s: Seq<A>, before: spec_fn(A, A) -> bool) -> bool {
    forall|i: int, j: int| 0 <= i < j < s.len() ==> !before(#[trigger] s[j], #[trigger] s[i])
}

/// Under an order that puts any two different values in one order, a sequence
/// whose neighbours are in order is in order throughout.
pub proof fn lemma_ordered_is_ascending<A>(s: Seq<A>, before: spec_fn(A, A) -> bool)
    requires
        is_strict_total_order(before),
        is_ordered(s, before),
    ensures
        is_ascending(s, before),
    decreases s.len(),
{
    if s.len() > 1 {
        let front = s.drop_last();
        assert(is_ordered(front, before)) by {
            assert forall|i: int| 0 <= i < front.len() - 1 implies in_order(
                before,
                #[trigger] front[i],
                front[i + 1],
            ) by {
                assert(in_order(before, s[i], s[i + 1]));
            }
        }
        lemma_ordered_is_ascending(front, before);
        let n = s.len() - 1;
        assert forall|i: int, j: int| 0 <= i < j < s.len() implies !before(
            #[trigger] s[j],
            #[trigger] s[i],
        ) by {
            if j < n {
                assert(!before(front[j], front[i]));
            } else {
                assert(in_order(before, s[n - 1], s[n - 1 + 1]));
                if i < n - 1 {
                    assert(!before(front[n - 1], front[i]));
                }
            }
        }
    }
}

/// A rearrangement holds the same elements.
pub proof fn lemma_rearrangement_keeps_elements<A>(a: Seq<A>, b: Seq<A>, p: Seq<int>)
    requires
        is_rearrangement(a, b, p),
    ensures
        forall|x: A| a.contains(x) <==> b.contains(x),
{
    assert forall|x: A| a.contains(x) <==> b.contains(x) by {
        if a.contains(x) {
            let i = choose|i: int| 0 <= i < a.len() && a[i] == x;
            assert(names(p, i));
            let k = choose|k: int| 0 <= k < p.len() && #[trigger] p[k] == i;
            assert(b[k] == x);
        }
        if b.contains(x) {
            let k = choose|k: int| 0 <= k < b.len() && b[k] == x;
            assert(b[k] == a[p[k]]);
        }
    }
}

/// The keys of `s` grow from each element to the next.
pub open spec fn has_growing_keys<A>(s: Seq<A>, key: spec_fn(A) -> int) -> bool {
    forall|i: int, j: int| 0 <= i < j < s.len() ==> key(#[trigger] s[i]) < key(#[trigger] s[j])
}

/// Two sequences with growing keys that hold the same elements are the same
/// sequence.
pub proof fn lemma_growing_keys_unique<A>(a: Seq<A>, b: Seq<A>, key: spec_fn(A) -> int)
    requires
        has_growing_keys(a, key),
        has_growing_keys(b, key),
        forall|x: A| a.contains(x) <==> b.contains(x),
    ensures
        a == b,
    decreases a.len(),
{
    if a.len() == 0 {
        if b.len() > 0 {
            assert(b.contains(b[0]));
        }
    } else {
        let x = a.last();
        assert(a.contains(x));
        let j = choose|j: int| 0 <= j < b.len() && b[j] == x;
        let y = b.last();
        assert(b.contains(y));
        let i = choose|i: int| 0 <= i < a.len() && a[i] == y;
        assert(key(a[i]) <= key(a[a.len() - 1]));
        assert(key(b[j]) <= key(b[b.len() - 1]));
        assert(x == y);
        let front_a = a.drop_last();
        let front_b = b.drop_last();
        assert forall|z: A| front_a.contains(z) <==> front_b.contains(z) by {
            if front_a.contains(z) {
                let k = choose|k: int| 0 <= k < front_a.len() && front_a[k] == z;
                assert(a[k] == z);
                assert(a.contains(z));
                let m = choose|m: int| 0 <= m < b.len() && b[m] == z;
                assert(key(a[k]) < key(a[a.len() - 1]));
                assert(front_b[m] == z);
            }
            if front_b.contains(z) {
                let k = choose|k: int| 0 <= k < front_b.len() && front_b[k] == z;
                assert(b[k] == z);
                assert(b.contains(z));
                let m = choose|m: int| 0 <= m < a.len() && a[m] == z;
                assert(key(b[k]) < key(b[b.len() - 1]));
                assert(front_a[m] == z);
            }
        }
        assert(has_growing_keys(front_a, key)) by {
            assert forall|i: int, j: int| 0 <= i < j < front_a.len() implies key(
                #[trigger] front_a[i],
            ) < key(#[trigger] front_a[j]) by {
                assert(key(a[i]) < key(a[j]));
            }
        }
        assert(has_growing_keys(front_b, key)) by {
            assert forall|i: int, j: int| 0 <= i < j < front_b.len() implies key(
                #[trigger] front_b[i],
            ) < key(#[trigger] front_b[j]) by {
                assert(key(b[i]) < key(b[j]));
            }
        }
        lemma_growing_keys_unique(front_a, front_b, key);
        assert(a =~= front_a.push(x));
        assert(b =~= front_b.push(y));
    }
}

} // verus!
