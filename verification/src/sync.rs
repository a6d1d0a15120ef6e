//! The edge synchronisation client's decisions.
//!
//! The client mirrors every `Event` seen on the local bus to the hub and
//! feeds the hub's answer — a batch of `Command` messages — back onto the
//! bus.  The POST itself is network work done outside this crate; here are
//! the batching, the bounded retry budget and the poll cadence.

use vstd::prelude::*;

use crate::message::{Message, Payload};

verus! {

/// POST attempts allowed for one batch before it is dropped.
pub const SEND_ATTEMPT_LIMIT: u8 = 5;

/// Seconds until the next sync cycle when the last one was idle.
pub const IDLE_POLL_SECONDS: u64 = 5;

/// Seconds until the next sync cycle after one that carried any content.
pub const BUSY_POLL_SECONDS: u64 = 1;

/// The bus-facing edge sync client: where to post, how to authenticate,
/// and the events waiting for the next cycle.
pub struct WebHandler {
    pub url: String,
    pub token: String,
    pub batch: Vec<Message>,
}

impl WebHandler {
    pub fn new(url: String, token: String) -> (h: WebHandler)
        ensures
            h.url@ == url@,
            h.token@ == token@,
            h.batch@ == Seq::<Message>::empty(),
    {
        WebHandler { url, token, batch: Vec::new() }
    }

    /// Observe one bus message: an event joins the outgoing batch, a
    /// command is not replicated to the hub.
    pub fn observe(&mut self, message: Message)
        ensures
            final(self).url == old(self).url,
            final(self).token == old(self).token,
            message.payload is Event ==> final(self).batch@ == old(self).batch@.push(message),
            message.payload is Command ==> *final(self) == *old(self),
    {
        if matches!(message.payload(), Payload::Event(_)) {
            self.batch.push(message);
        }
    }

    /// Drain the batch for one sync cycle.
    pub fn take_batch(&mut self) -> (batch: Vec<Message>)
        ensures
            batch@ == old(self).batch@,
            final(self).url == old(self).url,
            final(self).token == old(self).token,
            final(self).batch@ == Seq::<Message>::empty(),
    {
        let mut batch: Vec<Message> = Vec::new();
        core::mem::swap(&mut batch, &mut self.batch);
        batch
    }
}

/// The retry budget for posting one batch.
pub struct SendState {
    pub tries_left: u8,
}

impl SendState {
    pub fn start() -> (s: SendState)
        ensures
            s.tries_left == SEND_ATTEMPT_LIMIT,
    {
        SendState { tries_left: SEND_ATTEMPT_LIMIT }
    }

    /// Account one attempt that failed — the request did not go through, or
    /// the reply was not a readable command batch.  True while budget
    /// remains for another try; after the fifth failure the batch is
    /// dropped.
    pub fn on_failure(&mut self) -> (again: bool)
        requires
            old(self).tries_left >= 1,
        ensures
            final(self).tries_left == old(self).tries_left - 1,
            again == (final(self).tries_left > 0),
    {
        self.tries_left = self.tries_left - 1;
        self.tries_left > 0
    }
}

/// The delay before the next sync cycle: long after an idle cycle, short
/// after one that exchanged any events or commands.
pub fn poll_interval_seconds(no_messages: bool) -> (r: u64)
    ensures
        r == (if no_messages {
            IDLE_POLL_SECONDS
        } else {
            BUSY_POLL_SECONDS
        }),
{
    if no_messages {
        IDLE_POLL_SECONDS
    } else {
        BUSY_POLL_SECONDS
    }
}

} // verus!
