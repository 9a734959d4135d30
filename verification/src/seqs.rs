//! Small facts about sequences that several modules share.

use vstd::prelude::*;

verus! {

/// The views of the elements of `s`, in the same order.
pub open spec fn views<T: View>(s: Seq<T>) -> Seq<T::V> {
    s.map_values(|t: T| t@)
}

/// The view of an optional string.
pub open spec fn opt_view(o: Option<String>) -> Option<Seq<char>> {
    match o {
        Some(s) => Some(s@),
        None => None,
    }
}

/// The views of optional strings.
pub open spec fn opts_view(s: Seq<Option<String>>) -> Seq<Option<Seq<char>>> {
    s.map_values(|o: Option<String>| opt_view(o))
}

/// The views of pairs of strings.
pub open spec fn pairs_view(pairs: Seq<(String, String)>) -> Seq<(Seq<char>, Seq<char>)> {
    pairs.map_values(|p: (String, String)| (p.0@, p.1@))
}

/// Position of the first element of `s` that meets `pred`, or the length of
/// `s` when none does.
pub open spec fn first_where<A>(s: Seq<A>, pred: spec_fn(A) -> bool) -> int
    decreases s.len(),
{
    if s.len() == 0 {
        0
    } else if pred(s[0]) {
        0
    } else {
        1 + first_where(s.drop_first(), pred)
    }
}

/// What `first_where` finds: an element that meets `pred`, before which none
/// does.
pub proof fn lemma_first_where<A>(s: Seq<A>, pred: spec_fn(A) -> bool)
    ensures
        0 <= first_where(s, pred) <= s.len(),
        first_where(s, pred) < s.len() ==> pred(s[first_where(s, pred)]),
        forall|j: int| 0 <= j < first_where(s, pred) ==> !pred(#[trigger] s[j]),
    decreases s.len(),
{
    if s.len() > 0 && !pred(s[0]) {
        let rest = s.drop_first();
        lemma_first_where(rest, pred);
        assert forall|j: int| 0 <= j < first_where(s, pred) implies !pred(#[trigger] s[j]) by {
            if j > 0 {
                assert(rest[j - 1] == s[j]);
            }
        }
    }
}

/// Where no element before position `i` meets `pred`, and the one at `i`
/// does unless `i` is the length, `first_where` finds `i`.
pub proof fn lemma_first_where_is<A>(s: Seq<A>, pred: spec_fn(A) -> bool, i: int)
    requires
        0 <= i <= s.len(),
        i < s.len() ==> pred(s[i]),
        forall|j: int| 0 <= j < i ==> !pred(#[trigger] s[j]),
    ensures
        first_where(s, pred) == i,
{
    lemma_first_where(s, pred);
}

/// What `f` makes of an element of `s` is among what it makes of `s`.
pub proof fn lemma_filter_map_holds<A, B>(s: Seq<A>, f: spec_fn(A) -> Option<B>, i: int)
    requires
        0 <= i < s.len(),
        f(s[i]) is Some,
    ensures
        s.filter_map(f).contains(f(s[i])->0),
    decreases s.len(),
{
    let rest = s.drop_last();
    let found = rest.filter_map(f);
    if i < s.len() - 1 {
        lemma_filter_map_holds(rest, f, i);
        let k = choose|k: int| 0 <= k < found.len() && found[k] == f(s[i])->0;
        assert(s.filter_map(f)[k] == found[k]);
    } else {
        let all = s.filter_map(f);
        assert(all[found.len() as int] == f(s[i])->0);
    }
}

/// Some element of `s` has the key `k`.
pub open spec fn holds_key<A, K>(s: Seq<A>, key: spec_fn(A) -> K, k: K) -> bool {
    exists|i: int| 0 <= i < s.len() && key(#[trigger] s[i]) == k
}

/// The elements of `s` in their order, each key once: an element whose key
/// an earlier element has is left out.
pub open spec fn first_by_key<A, K>(s: Seq<A>, key: spec_fn(A) -> K) -> Seq<A>
    decreases s.len(),
{
    if s.len() == 0 {
        Seq::empty()
    } else {
        let kept = first_by_key(s.drop_last(), key);
        if holds_key(kept, key, key(s.last())) {
            kept
        } else {
            kept.push(s.last())
        }
    }
}

/// What one more element adds to `first_by_key`: itself, unless its key is
/// there already.
pub proof fn lemma_first_by_key_push<A, K>(s: Seq<A>, key: spec_fn(A) -> K, x: A)
    ensures
        first_by_key(s.push(x), key) == if holds_key(first_by_key(s, key), key, key(x)) {
            first_by_key(s, key)
        } else {
            first_by_key(s, key).push(x)
        },
{
    assert(s.push(x).drop_last() =~= s);
}

/// What `first_by_key` keeps has each key of `s` exactly once: no two of the
/// elements kept have the same key, each of them is an element of `s`, and
/// the key of every element of `s` is the key of one of them.
pub proof fn lemma_first_by_key<A, K>(s: Seq<A>, key: spec_fn(A) -> K)
    ensures
        forall|i: int, j: int|
            0 <= i < j < first_by_key(s, key).len() ==> key(#[trigger] first_by_key(s, key)[i])
                != key(#[trigger] first_by_key(s, key)[j]),
        forall|i: int|
            0 <= i < first_by_key(s, key).len() ==> s.contains(#[trigger] first_by_key(s, key)[i]),
        forall|i: int| 0 <= i < s.len() ==> holds_key(first_by_key(s, key), key, key(#[trigger] s[i])),
    decreases s.len(),
{
    let kept = first_by_key(s, key);
    if s.len() > 0 {
        let front = s.drop_last();
        let last = s.last();
        let before = first_by_key(front, key);
        lemma_first_by_key(front, key);
        assert forall|i: int| 0 <= i < kept.len() implies s.contains(#[trigger] kept[i]) by {
            if i < before.len() {
                let k = choose|k: int| 0 <= k < front.len() && front[k] == before[i];
                assert(s[k] == kept[i]);
            } else {
                assert(s[s.len() - 1] == kept[i]);
            }
        }
        assert forall|i: int| 0 <= i < s.len() implies holds_key(kept, key, key(#[trigger] s[i])) by {
            if i < front.len() {
                let k = choose|k: int|
                    0 <= k < before.len() && key(#[trigger] before[k]) == key(front[i]);
                assert(key(kept[k]) == key(s[i]));
            } else if !holds_key(before, key, key(last)) {
                assert(key(kept[kept.len() - 1]) == key(last));
            }
        }
        assert forall|i: int, j: int| 0 <= i < j < kept.len() implies key(#[trigger] kept[i]) != key(
            #[trigger] kept[j],
        ) by {
            if j < before.len() {
                assert(key(before[i]) != key(before[j]));
            }
        }
    }
}

} // verus!
