//! The boundary to the tokio runtime.
//!
//! Everything in this module is taken on trust: the verifier reads the
//! signatures and contracts below, not tokio.

use std::future::Future;
use std::pin::Pin;
use tokio::task::{JoinError, JoinHandle, LocalSet};
use vstd::prelude::*;

verus! {

/// The asynchronous body of a task: a boxed, pinned future without a result.
///
/// The verifier cannot express the type of the field, so the whole value is
/// opaque to it. Nothing is assumed about what the future does.
#[verifier::external_body]
pub struct Execution {
    pub future: Pin<Box<dyn Future<Output = ()>>>,
}

/// `tokio::task::JoinHandle`, opaque: a handle to a spawned computation.
#[verifier::external_type_specification]
#[verifier::external_body]
#[verifier::reject_recursive_types(T)]
pub struct ExJoinHandle<T>(JoinHandle<T>);

/// `tokio::task::JoinError`, opaque. It is only named because awaiting a
/// `JoinHandle` yields it; the library never awaits one.
#[verifier::external_type_specification]
#[verifier::external_body]
pub struct ExJoinError(JoinError);

/// `tokio::task::LocalSet`, opaque: the set of tasks that run on this thread.
#[verifier::external_type_specification]
#[verifier::external_body]
pub struct ExLocalSet(LocalSet);

/// `JoinHandle::is_finished` reads the state of the computation without
/// blocking. The answer depends on how far the runtime has come, so nothing is
/// claimed about it; the call itself never fails.
pub assume_specification<T>[ JoinHandle::<T>::is_finished ](handle: &JoinHandle<T>) -> (finished:
    bool)
;

/// Calls `LocalSet::spawn_local`, which queues the computation on the local
/// set and returns at once, whether or not the set is being driven. Nothing is
/// claimed about the handle that comes back.
#[verifier::external_body]
pub(crate) fn spawn_on(local: &LocalSet, body: Execution) -> (handle: JoinHandle<()>) {
    local.spawn_local(body.future)
}

} // verus!
