//! The random-number stream that every sampling step draws from.

use vstd::prelude::*;
use crate::fixed::{Fx, ONE};

verus! {

/// The generator `rand_chacha::ChaCha8Rng`, owned by the worker that traces a
/// sample; it is only handed on to the draws below.
#[verifier::external_type_specification]
#[verifier::external_body]
pub struct ExChaCha8Rng(rand_chacha::ChaCha8Rng);

/// Relies on `rand::Rng::gen_range` (rand 0.7): a value drawn from
/// `[low, high)`. It panics when `low >= high`, which `requires` rules out.
#[verifier::external_body]
pub(crate) fn random_below(rng: &mut rand_chacha::ChaCha8Rng, n: u64) -> (r: u64)
    requires
        0 < n,
    ensures
        r < n,
{
    rand::Rng::gen_range(rng, 0u64, n)
}

/// A uniform fraction in `[0, 1)`.
pub fn random_fraction(rng: &mut rand_chacha::ChaCha8Rng) -> (r: Fx)
    ensures
        0 <= r < ONE,
{
    random_below(rng, ONE as u64) as i64
}

/// A uniform scalar in `[lo, hi)`.
pub fn random_range(rng: &mut rand_chacha::ChaCha8Rng, lo: Fx, hi: Fx) -> (r: Fx)
    requires
        lo < hi,
    ensures
        lo <= r < hi,
{
    let span = (hi as i128 - lo as i128) as u64;
    let d = random_below(rng, span);
    (lo as i128 + d as i128) as i64
}

} // verus!
