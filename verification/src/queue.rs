//! Trusted declarations for the two capacity-1 queues that connect the
//! orchestrator to its background worker.

use vstd::prelude::*;
use crate::app::TestTarget;
use crate::app::TestResult;

verus! {

#[verifier::external_type_specification]
#[verifier::external_body]
#[verifier::reject_recursive_types(T)]
pub struct ExSender<T>(tokio::sync::mpsc::Sender<T>);

#[verifier::external_type_specification]
#[verifier::external_body]
#[verifier::reject_recursive_types(T)]
pub struct ExReceiver<T>(tokio::sync::mpsc::Receiver<T>);

/// Relies on tokio::sync::mpsc::Sender::try_send: offers one value to the
/// bounded queue, and gives it up when the queue is full or closed. Nothing
/// is promised of the attempt's outcome; the orchestrator's single-in-flight
/// discipline is what keeps the queue from being full here.
#[verifier::external_body]
pub(crate) fn send_target(tx: &tokio::sync::mpsc::Sender<TestTarget>, target: TestTarget) {
    let _ = tx.try_send(target);
}

/// Relies on tokio::sync::mpsc::Receiver::try_recv: takes the value waiting
/// in the queue, if any, without blocking. Whether a value waits, and which,
/// depends on the task at the other end, so nothing is promised of the
/// result; callers must hold for every outcome.
#[verifier::external_body]
pub(crate) fn recv_result(rx: &mut tokio::sync::mpsc::Receiver<TestResult>) -> (r: Option<
    TestResult,
>) {
    match rx.try_recv() {
        Ok(res) => Some(res),
        Err(_) => None,
    }
}

} // verus!
