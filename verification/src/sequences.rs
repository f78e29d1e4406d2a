//! Facts about filtered sequences that several components rest on.

use vstd::prelude::*;

verus! {

/// `list` holds the values of `map`, each once, in the order of `keys`:
/// the keys are those of the map without repetition, and at each place
/// stands the value of the key at that place.
pub open spec fn lists_in_order<V>(keys: Seq<Seq<char>>, list: Seq<V>, map: Map<Seq<char>, V>)
    -> bool {
    &&& keys.len() == list.len()
    &&& keys.no_duplicates()
    &&& forall|k: Seq<char>| keys.contains(k) <==> #[trigger] map.contains_key(k)
    &&& forall|i: int| 0 <= i < keys.len() ==> #[trigger] list[i] == map[keys[i]]
}

/// Filtering a sequence that got one more item.
pub proof fn lemma_filter_push<A>(s: Seq<A>, e: A, pred: spec_fn(A) -> bool)
    ensures
        s.push(e).filter(pred) == if pred(e) {
            s.filter(pred).push(e)
        } else {
            s.filter(pred)
        },
{
    reveal(Seq::filter);
    assert(s.push(e).drop_last() =~= s);
}

/// Filtering the empty sequence gives the empty sequence.
pub proof fn lemma_filter_empty<A>(pred: spec_fn(A) -> bool)
    ensures
        Seq::<A>::empty().filter(pred) == Seq::<A>::empty(),
{
    reveal(Seq::filter);
    assert(Seq::<A>::empty().filter(pred) =~= Seq::<A>::empty());
}

/// What a filter lets through: each item of the result passes and comes
/// from the sequence, each passing item of the sequence is in the result,
/// and the result is no longer than the sequence.
pub proof fn lemma_filter_members<A>(s: Seq<A>, pred: spec_fn(A) -> bool)
    ensures
        s.filter(pred).len() <= s.len(),
        forall|i: int|
            0 <= i < s.filter(pred).len() ==> pred(#[trigger] s.filter(pred)[i]) && s.contains(
                s.filter(pred)[i],
            ),
        forall|i: int| 0 <= i < s.len() && pred(s[i]) ==> s.filter(pred).contains(#[trigger] s[i]),
    decreases s.len(),
{
    reveal(Seq::filter);
    if s.len() > 0 {
        let front = s.drop_last();
        lemma_filter_members(front, pred);
        lemma_filter_push(front, s.last(), pred);
        assert(front.push(s.last()) =~= s);
        let out = s.filter(pred);
        assert forall|i: int| 0 <= i < out.len() implies pred(#[trigger] out[i]) && s.contains(
            out[i],
        ) by {
            if i < front.filter(pred).len() {
                let x = front.filter(pred)[i];
                assert(front.contains(x));
                let k = choose|k: int| 0 <= k < front.len() && front[k] == x;
                assert(s[k] == x);
            } else {
                assert(out[i] == s[s.len() - 1]);
            }
        }
        assert forall|i: int| 0 <= i < s.len() && pred(s[i]) implies out.contains(
            #[trigger] s[i],
        ) by {
            if i < front.len() {
                assert(front[i] == s[i]);
                assert(front.filter(pred).contains(front[i]));
                let k = choose|k: int|
                    0 <= k < front.filter(pred).len() && front.filter(pred)[k] == front[i];
                assert(out[k] == s[i]);
            } else {
                assert(out[out.len() - 1] == s[i]);
            }
        }
    }
}

/// Filtering a sequence without duplicates by "is not the item at `i`"
/// takes out exactly that place.
pub proof fn lemma_filter_out_unique<A>(s: Seq<A>, i: int)
    requires
        0 <= i < s.len(),
        s.no_duplicates(),
    ensures
        s.filter(|x: A| x != s[i]) == s.remove(i),
    decreases s.len(),
{
    reveal(Seq::filter);
    let pred = |x: A| x != s[i];
    let t = s.drop_last();
    if i == s.len() - 1 {
        lemma_filter_keeps_all(t, pred);
        assert(s.remove(i) =~= t);
    } else {
        lemma_filter_out_unique(t, i);
        assert(t[i] == s[i]);
        assert((|x: A| x != t[i]) =~= pred);
        assert(t.filter(|x: A| x != t[i]) == t.filter(pred));
        assert(s.remove(i) =~= t.remove(i).push(s.last()));
    }
}

/// A filter that every item passes changes nothing.
pub proof fn lemma_filter_keeps_all<A>(s: Seq<A>, pred: spec_fn(A) -> bool)
    requires
        forall|j: int| 0 <= j < s.len() ==> pred(#[trigger] s[j]),
    ensures
        s.filter(pred) == s,
    decreases s.len(),
{
    reveal(Seq::filter);
    if s.len() > 0 {
        lemma_filter_keeps_all(s.drop_last(), pred);
        assert(s.drop_last().push(s.last()) =~= s);
    }
}

} // verus!
