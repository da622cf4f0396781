//! Trusted wrappers around the pseudo-random source. Each wrapper makes one
//! call into the `rand` crate; everything Verus knows of randomness is what
//! the contracts here state, and they promise nothing about which value is
//! drawn, only what holds of every outcome.
use vstd::prelude::*;

verus! {

#[verifier::external_type_specification]
#[verifier::external_body]
pub struct ExThreadRng(rand::rngs::ThreadRng);

/// Relies on rand::rng: a handle to the thread-local generator.
#[verifier::external_body]
pub(crate) fn new_rng() -> rand::rngs::ThreadRng {
    rand::rng()
}

/// Relies on rand::seq::IteratorRandom::choose: on an iterator with correct
/// size hints (as `str::chars` has) it returns one element of the iterator,
/// and `None` only when the iterator is empty.
#[verifier::external_body]
pub(crate) fn choose_from(rng: &mut rand::rngs::ThreadRng, char_set: &str) -> (r: Option<char>)
    ensures
        r is Some <==> char_set@.len() > 0,
        r matches Some(c) ==> char_set@.contains(c),
{
    rand::seq::IteratorRandom::choose(char_set.chars(), rng)
}

/// Relies on rand::RngExt::random_range on the inclusive range `0..=100`:
/// the sample lies within the range; the range is non-empty, so no panic.
#[verifier::external_body]
pub(crate) fn roll_percent(rng: &mut rand::rngs::ThreadRng) -> (r: u8)
    ensures
        r <= 100,
{
    rand::RngExt::random_range(rng, 0..=100)
}

} // verus!
