//! The random order in which a solution is revealed.

use vstd::prelude::*;

verus! {

/// The positions of the board, each once, in ascending order.
pub open spec fn positions() -> Seq<usize> {
    Seq::new(81, |i: int| i as usize)
}

/// Whether `order` holds every position of the board exactly once.
pub open spec fn is_order(order: Seq<usize>) -> bool {
    order.to_multiset() == positions().to_multiset()
}

/// `rand::seq::SliceRandom::shuffle` with the thread's generator: the items
/// are swapped among themselves, so the same items are there afterwards, each
/// as often as before. Which order comes out is not claimed.
#[verifier::external_body]
fn shuffle(items: &mut Vec<usize>)
    ensures
        final(items)@.to_multiset() == old(items)@.to_multiset(),
{
    rand::seq::SliceRandom::shuffle(items.as_mut_slice(), &mut rand::thread_rng());
}

/// An order holds 81 positions, all on the board and no two the same.
pub proof fn lemma_order_is_permutation(order: Seq<usize>)
    requires
        is_order(order),
    ensures
        order.len() == 81,
        order.no_duplicates(),
        forall|k: int| 0 <= k < order.len() ==> #[trigger] order[k] < 81,
{
    let all = positions();
    order.to_multiset_ensures();
    all.to_multiset_ensures();
    assert(all.no_duplicates());
    all.lemma_multiset_has_no_duplicates();
    order.lemma_multiset_has_no_duplicates_conv();
    assert forall|k: int| 0 <= k < order.len() implies #[trigger] order[k] < 81 by {
        assert(order.contains(order[k]));
        assert(order.to_multiset().count(order[k]) > 0);
        assert(all.to_multiset().count(order[k]) > 0);
        assert(all.contains(order[k]));
        let j = choose|j: int| 0 <= j < all.len() && all[j] == order[k];
        assert(all[j] == j as usize);
    }
}

/// The positions of the board in a random order.
pub fn random_order() -> (order: Vec<usize>)
    ensures
        is_order(order@),
{
    let mut order: Vec<usize> = Vec::new();
    for i in 0..81usize
        invariant
            order@ == Seq::new(i as nat, |k: int| k as usize),
    {
        order.push(i);
        assert(order@ =~= Seq::new((i + 1) as nat, |k: int| k as usize));
    }
    assert(order@ =~= positions());
    shuffle(&mut order);
    order
}

} // verus!
