//! The channel between the producer and the consumer: the standard
//! library's single-producer single-consumer queue, behind trusted
//! wrappers. Chunks are delivered to the receiving half in the exact order
//! they were sent.

use vstd::prelude::*;
use std::sync::mpsc::Receiver;
use std::sync::mpsc::RecvTimeoutError;
use std::sync::mpsc::Sender;

verus! {

/// Relies on std::sync::mpsc::Sender: the sending half of the channel,
/// opaque here; chunks pass through the wrappers below.
#[verifier::external_type_specification]
#[verifier::external_body]
#[verifier::reject_recursive_types(T)]
pub struct ExSender<T>(Sender<T>);

/// Relies on std::sync::mpsc::Receiver: the receiving half of the
/// channel, opaque here; chunks pass through the wrappers below.
#[verifier::external_type_specification]
#[verifier::external_body]
#[verifier::reject_recursive_types(T)]
pub struct ExReceiver<T>(Receiver<T>);

/// How one attempt to take a chunk off the channel ended.
pub enum RecvOutcome {
    /// A chunk arrived within the wait.
    Chunk(Vec<u8>),
    /// The wait elapsed with no chunk ready.
    TimedOut,
    /// The sending half was dropped and no chunk is left: none will ever
    /// arrive.
    Closed,
}

/// Relies on std::sync::mpsc::Sender::send: queues the chunk for the
/// receiving half. A send to a channel whose receiver was dropped fails;
/// that failure is ignored here, as no one is left to read the bytes.
#[verifier::external_body]
pub(crate) fn send_chunk(sender: &Sender<Vec<u8>>, chunk: Vec<u8>) {
    let _ = sender.send(chunk);
}

/// Relies on std::sync::mpsc::Receiver::recv_timeout: waits at most
/// `wait_ms` milliseconds for a chunk. Which outcome comes back depends on
/// the producer thread and on time, so nothing more is promised of it.
#[verifier::external_body]
pub(crate) fn recv_chunk_timeout(receiver: &Receiver<Vec<u8>>, wait_ms: u64) -> RecvOutcome {
    match receiver.recv_timeout(std::time::Duration::from_millis(wait_ms)) {
        Ok(data) => RecvOutcome::Chunk(data),
        Err(RecvTimeoutError::Timeout) => RecvOutcome::TimedOut,
        Err(RecvTimeoutError::Disconnected) => RecvOutcome::Closed,
    }
}

} // verus!
