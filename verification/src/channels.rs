//! Declarations of the bounded channel primitives the intent machinery
//! carries its events and updates over.
//!
//! The channel values only pass through the verified code: creation happens
//! here, while sending and receiving (both asynchronous) are left to the
//! driver around the library. Nothing is assumed about a channel's state.

use vstd::prelude::*;

verus! {

/// Declares tokio's bounded channel sender so it can stand in fields and
/// signatures; the value is opaque to the verifier.
#[verifier::external_type_specification]
#[verifier::external_body]
#[verifier::reject_recursive_types(T)]
pub struct ExSender<T>(tokio::sync::mpsc::Sender<T>);

/// Declares tokio's bounded channel receiver; likewise opaque.
#[verifier::external_type_specification]
#[verifier::external_body]
#[verifier::reject_recursive_types(T)]
pub struct ExReceiver<T>(tokio::sync::mpsc::Receiver<T>);

/// Relies on tokio::sync::mpsc::channel: creates a bounded channel pair.
/// The function panics on a zero capacity and on one above the semaphore
/// maximum of `usize::MAX >> 3` (written here as the equal value
/// `usize::MAX / 8`), so those inputs are excluded; nothing else is
/// assumed of the fresh pair.
pub assume_specification<T>[ tokio::sync::mpsc::channel::<T> ](buffer: usize) -> (r: (
    tokio::sync::mpsc::Sender<T>,
    tokio::sync::mpsc::Receiver<T>,
))
    requires
        1 <= buffer <= usize::MAX / 8,
;

/// Relies on tokio Sender::is_closed: reports whether the receiving half
/// has been dropped or closed. The answer depends on outside state, so nothing
/// is assumed about it.
pub assume_specification<T>[ tokio::sync::mpsc::Sender::<T>::is_closed ](
    s: &tokio::sync::mpsc::Sender<T>,
) -> bool
;

} // verus!
