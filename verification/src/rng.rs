//! The random source: the generator of the current thread from the `rand`
//! crate. Nothing in this file is proved; each contract records what that
//! crate documents of its own function.

use vstd::prelude::*;
use rand::rngs::ThreadRng;
use rand::Rng;

verus! {

/// `rand::rngs::ThreadRng`, the handle of the current thread's generator.
/// Its state is hidden: nothing can be said of what it will produce.
#[verifier::external_type_specification]
#[verifier::external_body]
pub struct ExThreadRng(rand::rngs::ThreadRng);

/// `rand::thread_rng` returns the handle of the current thread's generator,
/// which is seeded by the operating system on first use and panics only
/// where the system cannot seed it. Nothing is claimed of the handle.
pub assume_specification[ rand::thread_rng ]() -> (rng: ThreadRng);

/// `rand::Rng::gen_range` on the half-open range `low..high` of `i128`.
/// The crate documents that it panics on an empty range, which `requires`
/// rules out, and that the value it returns lies in the range: at least
/// `low` and below `high`. Which value of the range comes back is up to the
/// generator, so two calls with the same bounds may differ.
#[verifier::external_body]
pub(crate) fn gen_range(rng: &mut ThreadRng, low: i128, high: i128) -> (drawn: i128)
    requires
        low < high,
    ensures
        low <= drawn < high,
{
    rng.gen_range(low..high)
}

} // verus!
