//! The only place where the game touches the random number generator.
//!
//! Nothing here is verified: each item states, without proof, what the `rand`
//! crate does.  Since a draw is random, the contracts only say what holds of
//! every outcome.

use rand::Rng;
use vstd::prelude::*;

verus! {

/// `rand::ThreadRng`, the handle to the generator of the current thread.
/// The game only passes it on; nothing is known of what it holds.
#[verifier::external_type_specification]
#[verifier::external_body]
pub struct ExThreadRng(rand::ThreadRng);

/// `rand::thread_rng` hands out the generator of the current thread, seeding
/// it on first use.  Nothing is claimed of the value returned.  The call
/// panics if the system offers no source of entropy at all.
pub assume_specification[ rand::thread_rng ]() -> (rng: rand::ThreadRng);

/// `rand::Rng::choose` on the thread's generator: picks one element of
/// `values`.  An empty slice gives `None`; otherwise the result is `Some` of
/// an element that occurs in the slice.  Which one is left open.
#[verifier::external_body]
pub(crate) fn pick<T: Copy>(rng: &mut rand::ThreadRng, values: &[T]) -> (picked: Option<T>)
    ensures
        values@.len() == 0 ==> picked is None,
        values@.len() > 0 ==> picked is Some && values@.contains(picked->0),
{
    rng.choose(values).copied()
}

} // verus!
