//! Facts about prefixes of sequences that the loops of this crate rest on.

use vstd::prelude::*;
use vstd::seq_lib::lemma_seq_contains_after_push;

verus! {

/// The prefix of length `i + 1` is the prefix of length `i` with the item at
/// `i` behind it, and holds what that prefix holds and this item.
pub proof fn lemma_prefix_contains<T>(items: Seq<T>, i: int)
    requires
        0 <= i < items.len(),
    ensures
        items.take(i + 1) == items.take(i).push(items[i]),
        items.take(i + 1).drop_last() == items.take(i),
        items.take(i + 1).last() == items[i],
        forall|item: T|
            #![trigger items.take(i + 1).contains(item)]
            items.take(i + 1).contains(item) <==> items.take(i).contains(item) || item == items[i],
{
    let shorter = items.take(i);
    let longer = items.take(i + 1);
    assert(longer =~= shorter.push(items[i]));
    assert(longer.drop_last() =~= shorter);
    assert forall|item: T|
        longer.contains(item) <==> shorter.contains(item) || item == items[i] by {
        lemma_seq_contains_after_push(shorter, items[i], item);
    }
}

/// A sequence that is not empty holds what it holds without its last item,
/// and that item.
pub proof fn lemma_last_contains<T>(items: Seq<T>, item: T)
    requires
        items.len() > 0,
    ensures
        items.contains(item) <==> items.drop_last().contains(item) || item == items.last(),
{
    assert(items =~= items.drop_last().push(items.last()));
    lemma_seq_contains_after_push(items.drop_last(), items.last(), item);
}

} // verus!
