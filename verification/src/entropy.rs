//! The sources of randomness the game draws on.

use vstd::prelude::*;

verus! {

/// Calls `rand::random::<usize>()`, which samples the generator of the current
/// thread.
///
/// Nothing is claimed about the value: any `usize` may come back, and two calls
/// may differ. The call fails only where the operating system cannot seed the
/// generator.
#[verifier::external_body]
pub(crate) fn random_usize() -> (draw: usize) {
    rand::random::<usize>()
}

/// Calls `nanoid::format` with the generator `nanoid::rngs::default` and the
/// alphabet `nanoid::alphabet::SAFE`.
///
/// What is claimed: the identifier has `size` characters. `format` collects
/// characters of the alphabet, all of them ASCII, until the string is `size`
/// bytes long. For a `size` of zero it would never return, and it computes
/// `8 * size`; both are ruled out. Which characters come back is left open, and
/// two calls may differ. The call fails only where the operating system cannot
/// seed the generator.
#[verifier::external_body]
pub(crate) fn random_id(size: usize) -> (id: String)
    requires
        0 < size <= usize::MAX / 8,
    ensures
        id@.len() == size,
{
    nanoid::format(nanoid::rngs::default, &nanoid::alphabet::SAFE, size)
}

} // verus!
