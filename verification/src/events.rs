//! The outbound event channel: discrete notifications for a presentation
//! layer, decoupled from the run's lock.

use vstd::prelude::*;

verus! {

/// One outbound notification of the run.
#[derive(Debug)]
pub enum Event {
    /// A step was recorded into the history.
    StepRecorded,
    /// The run is over: the task is done, or was found impossible.
    TaskComplete { impossible: bool, reason: Option<String> },
}

/// The sending half of the run's event channel.
pub type Sender = tokio::sync::mpsc::UnboundedSender<Event>;

#[verifier::external_type_specification]
#[verifier::external_body]
#[verifier::reject_recursive_types(T)]
pub struct ExUnboundedSender<T>(tokio::sync::mpsc::UnboundedSender<T>);

/// Relies on tokio's `UnboundedSender::send`: it never blocks, fails exactly
/// when the receiving half is closed or dropped, and a failure hands the
/// undelivered message back.
#[verifier::external_body]
pub(crate) fn send_event(tx: &Sender, event: Event) -> (r: Result<(), Event>)
    ensures
        r matches Err(e) ==> e == event,
{
    match tx.send(event) {
        Ok(()) => Ok(()),
        Err(tokio::sync::mpsc::error::SendError(e)) => Err(e),
    }
}

} // verus!
