//! The seeded pseudo-random generator that the constants are drawn from.
//!
//! Nothing in this file is proved: it states what the `rand` crate is
//! trusted to do.
use rand::rngs::StdRng;
use rand::Rng;
use rand::SeedableRng;
use vstd::prelude::*;

verus! {

/// `rand::rngs::StdRng`, carried through as a value that nothing here looks
/// into.
#[verifier::external_type_specification]
#[verifier::external_body]
pub struct ExStdRng(StdRng);

/// The `i`-th 64-bit value (counting from zero) that a `StdRng` made by
/// `seed_from_u64(seed)` hands out when only 64-bit values are drawn from it.
pub uninterp spec fn seeded_draw(seed: u64, i: nat) -> u64;

/// The `i`-th 64-bit value (counting from zero) that `rng` will hand out from
/// its present state when only 64-bit values are drawn from it.
pub uninterp spec fn upcoming(rng: StdRng, i: nat) -> u64;

/// `StdRng::seed_from_u64`: a generator whose whole output is fixed by `seed`.
///
/// The generator is a ChaCha stream keyed from `seed` through a fixed
/// expansion, so equal seeds give equal streams on every machine.
#[verifier::external_body]
pub(crate) fn seeded_generator(seed: u64) -> (rng: StdRng)
    ensures
        forall|i: nat| #[trigger] upcoming(rng, i) == seeded_draw(seed, i),
{
    StdRng::seed_from_u64(seed)
}

/// `Rng::gen::<u64>`: hands out the next 64-bit value of the stream and
/// advances the generator by exactly that one value.
#[verifier::external_body]
pub(crate) fn next_value(rng: &mut StdRng) -> (value: u64)
    ensures
        value == upcoming(*old(rng), 0),
        forall|i: nat| #[trigger] upcoming(*final(rng), i) == upcoming(*old(rng), i + 1),
{
    rng.gen()
}

} // verus!
