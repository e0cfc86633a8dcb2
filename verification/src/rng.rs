//! The random choices the mixer makes, drawn from the `rand` crate.
//!
//! What `rand` returns depends on chance, so each item states only what holds
//! of every outcome.
use rand::seq::SliceRandom;
use vstd::prelude::*;

verus! {

/// `SliceRandom::choose_multiple` of `rand` on `pool` with the thread-local
/// generator. Its source takes `min(amount, pool.len())` distinct positions of
/// the slice (`index::sample`) and yields the items at them. So the result
/// has that length, holds only items of `pool`, and, `pool` holding no item
/// twice, holds no item twice. Which items, and in which order, is left to
/// chance and is not stated.
#[verifier::external_body]
pub(crate) fn choose_multiple_indices(pool: &Vec<usize>, amount: usize) -> (picked: Vec<usize>)
    requires
        pool@.no_duplicates(),
    ensures
        picked@.len() == (if amount < pool@.len() { amount as int } else { pool@.len() as int }),
        picked@.no_duplicates(),
        forall|i: int| 0 <= i < picked@.len() ==> pool@.contains(#[trigger] picked@[i]),
{
    let mut rng = rand::thread_rng();
    pool.choose_multiple(&mut rng, amount).copied().collect()
}

/// `SliceRandom::choose` of `rand` on `pool` with the thread-local generator:
/// `None` exactly when `pool` is empty, otherwise one of its items. Which one
/// is left to chance and is not stated.
#[verifier::external_body]
pub(crate) fn choose_index(pool: &Vec<usize>) -> (picked: Option<usize>)
    ensures
        picked is None <==> pool@.len() == 0,
        picked matches Some(x) ==> pool@.contains(x),
{
    let mut rng = rand::thread_rng();
    pool.choose(&mut rng).copied()
}

/// `rand::random::<usize>()`: any `usize` at all; nothing is stated of it.
#[verifier::external_body]
pub(crate) fn random_usize() -> (r: usize) {
    rand::random::<usize>()
}

} // verus!
