//! The event queue: a bounded, multi-producer/single-consumer channel.
//!
//! All producers (node-owned background activity) and the one consumer (the
//! engine's routing loop) communicate exclusively through this queue.  Events
//! arrive at the consumer in the order they were enqueued; a full queue
//! blocks the producer until space is available, which gives backpressure
//! against bursty sources.  These ordering and blocking behaviours come from
//! the standard library's channel and are not modelled here: nothing is
//! assumed about which event a wait returns.

use vstd::prelude::*;

use crate::common::Event;

verus! {

#[verifier::external_type_specification]
#[verifier::external_body]
#[verifier::reject_recursive_types(T)]
pub struct ExSyncSender<T>(std::sync::mpsc::SyncSender<T>);

#[verifier::external_type_specification]
#[verifier::external_body]
#[verifier::reject_recursive_types(T)]
pub struct ExReceiver<T>(std::sync::mpsc::Receiver<T>);

/// The write end of the event queue: the one object shared across threads.
/// It only sends; the read side stays with the engine.
#[derive(Debug)]
pub struct EventSender {
    tx: std::sync::mpsc::SyncSender<Event>,
}

/// The read end of the event queue, owned by the engine alone.
#[derive(Debug)]
pub struct EventReceiver {
    rx: std::sync::mpsc::Receiver<Event>,
}

impl EventSender {
    /// Relies on SyncSender::send: the event is enqueued in arrival order,
    /// blocking while the queue is full.  A send after the receiving end is
    /// gone does nothing.
    #[verifier::external_body]
    pub fn send(&self, e: Event) {
        let _ = self.tx.send(e);
    }

    /// Relies on SyncSender::clone: another handle to the same queue.
    #[verifier::external_body]
    pub fn duplicate(&self) -> EventSender {
        EventSender { tx: self.tx.clone() }
    }
}

impl EventReceiver {
    /// Relies on Receiver::recv_timeout: returns the next queued event in
    /// arrival order, or nothing once the wait has elapsed (or every sender
    /// is gone).  Which of the two holds, and which event arrives, depends
    /// on what other threads have enqueued, so nothing is promised of the
    /// outcome.
    #[verifier::external_body]
    pub fn recv_timeout(&self, timeout: std::time::Duration) -> Option<Event> {
        match self.rx.recv_timeout(timeout) {
            Ok(e) => Some(e),
            Err(_) => None,
        }
    }
}

/// Relies on std::sync::mpsc::sync_channel: a fresh bounded queue holding up
/// to `bound` events, returned as its two ends.
#[verifier::external_body]
pub fn event_channel(bound: usize) -> (EventSender, EventReceiver) {
    let (tx, rx) = std::sync::mpsc::sync_channel(bound);
    (EventSender { tx }, EventReceiver { rx })
}

} // verus!
