//! A sound behind a lock, for the threads that share it.

use vstd::prelude::*;
use std::sync::Arc;
use parking_lot::Mutex;
use crate::sound::{Sound, SoundView};

verus! {

/// A sound that threads share. Every reading and every change takes the
/// lock first and holds it to its end, so that each sees a whole sound.
pub type SharedSound = Arc<Mutex<Sound>>;

/// `lock_api::Mutex`, which `parking_lot::Mutex` is an alias of: carried
/// through, with nothing seen inside it.
#[verifier::external_type_specification]
#[verifier::external_body]
#[verifier::reject_recursive_types(R)]
#[verifier::reject_recursive_types(T)]
pub struct ExMutex<R, T: ?Sized>(parking_lot::lock_api::Mutex<R, T>);

/// `parking_lot::RawMutex`, the lock inside a `parking_lot::Mutex`.
#[verifier::external_type_specification]
#[verifier::external_body]
pub struct ExRawMutex(parking_lot::RawMutex);

/// The sound that a lock was made around: what it held when it was new.
/// Of what a lock holds later, which can change under any reference to it,
/// this says nothing.
pub uninterp spec fn initial_sound(lock: Mutex<Sound>) -> SoundView;

/// `parking_lot::Mutex::new`: an unlocked mutex that owns the value it is
/// given. The contract claims that the mutex returned was made around
/// `sound`, and no more.
#[verifier::external_body]
pub(crate) fn locked(sound: Sound) -> (lock: Mutex<Sound>)
    ensures
        initial_sound(lock) == sound@,
{
    Mutex::new(sound)
}

} // verus!
