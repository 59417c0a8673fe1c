//! Draws from the thread-local random generator of the `rand` crate.
use vstd::prelude::*;

verus! {

/// Relies on `rand::random_range`: for a non-empty inclusive range it returns a
/// value of that range, drawn uniformly from the thread-local generator.
#[verifier::external_body]
pub(crate) fn random_in(lo: u64, hi: u64) -> (r: u64)
    requires
        lo <= hi,
    ensures
        lo <= r <= hi,
{
    rand::random_range(lo..=hi)
}

/// Relies on `rand::random`: a value drawn from the standard distribution of
/// `T` by the thread-local generator. Nothing is promised about which one.
pub assume_specification<T>[ rand::random::<T> ]() -> (r: T)
    where
        rand::distr::StandardUniform: rand::distr::Distribution<T>,
;

} // verus!
