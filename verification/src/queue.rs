//! The bounded queues between the threads of the engine.
//!
//! What comes out of a queue depends on the thread at its other end, so
//! nothing is claimed of it here: the engine's rules are stated for whatever
//! a queue returns.

use crate::sample::Sample;
use crossbeam::channel::{Receiver, RecvError, SendError, Sender};
use vstd::prelude::*;

verus! {

/// The receiving end of a crossbeam queue. Nothing inside it is looked at.
#[verifier::external_type_specification]
#[verifier::external_body]
#[verifier::reject_recursive_types(T)]
pub struct ExReceiver<T>(crossbeam::channel::Receiver<T>);

/// The sending end of a crossbeam queue. Nothing inside it is looked at.
#[verifier::external_type_specification]
#[verifier::external_body]
#[verifier::reject_recursive_types(T)]
pub struct ExSender<T>(crossbeam::channel::Sender<T>);

/// The error of crossbeam's `recv`. It only says that the queue is closed.
#[verifier::external_type_specification]
#[verifier::external_body]
pub struct ExRecvError(crossbeam::channel::RecvError);

/// The error of crossbeam's `send`. Nothing inside it is looked at.
#[verifier::external_type_specification]
#[verifier::external_body]
#[verifier::reject_recursive_types(T)]
pub struct ExSendError<T>(crossbeam::channel::SendError<T>);

/// `Receiver::recv` of crossbeam: waits for the next sample in the queue.
/// It fails once the queue is empty and every sender is gone. Which of the
/// two happens, and which sample comes, is not claimed.
#[verifier::external_body]
fn recv(queue: &Receiver<Sample>) -> (received: Result<Sample, RecvError>) {
    queue.recv()
}

/// `Sender::send` of crossbeam: waits for room in the queue and puts the
/// sample there. It fails once every receiver is gone. Which of the two
/// happens is not claimed.
#[verifier::external_body]
fn send(queue: &Sender<Sample>, sample: Sample) -> (sent: Result<(), SendError<Sample>>) {
    queue.send(sample)
}

/// The next sample of a queue, or `None` where the queue has been closed.
pub(crate) fn receive(queue: &Receiver<Sample>) -> (received: Option<Sample>) {
    match recv(queue) {
        Ok(sample) => Some(sample),
        Err(_) => None,
    }
}

/// Puts a sample in a queue, and says whether the queue took it.
pub(crate) fn deliver(queue: &Sender<Sample>, sample: Sample) -> (delivered: bool) {
    match send(queue, sample) {
        Ok(_) => true,
        Err(_) => false,
    }
}

} // verus!
