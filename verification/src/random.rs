//! The random source: the thread-local generator of the `rand` crate.
//!
//! Nothing is assumed of a draw beyond the bounds that `rand` documents, so
//! whatever is proved of a caller holds of every outcome.

use rand::seq::IteratorRandom;
use rand::Rng;
use vstd::prelude::*;

verus! {

/// `rand::Rng::gen_range` over `low..high` on `rand::thread_rng()`.
///
/// Trusted: the draw lies in the half-open range. `gen_range` panics on an
/// empty range, which the precondition excludes.
#[verifier::external_body]
pub(crate) fn random_in_range(low: i32, high: i32) -> (r: i32)
    requires
        low < high,
    ensures
        low <= r < high,
{
    rand::thread_rng().gen_range(low..high)
}

/// `rand::seq::IteratorRandom::choose` over the items of `pool` on
/// `rand::thread_rng()`.
///
/// Trusted: the result is `None` exactly when the pool is empty, and
/// otherwise one of its items.
#[verifier::external_body]
pub(crate) fn choose_from(pool: &Vec<u64>) -> (r: Option<u64>)
    ensures
        r is None <==> pool@.len() == 0,
        r matches Some(item) ==> pool@.contains(item),
{
    pool.iter().choose(&mut rand::thread_rng()).copied()
}

} // verus!
