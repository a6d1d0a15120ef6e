//! Shutdown sequencing for the event bus.
//!
//! The bus itself is a broadcast channel run by an executor outside this
//! crate; it ends when any handler task completes.  The one handler that
//! ever completes deliberately is the stopper modelled here: it watches
//! every message, and on `Command::Stop` it drains — waits a short grace
//! period so the other handlers can observe the same message — and then
//! terminates, which ends the whole bus.

use vstd::prelude::*;

use crate::message::{Command, Message, Payload};

verus! {

/// Milliseconds the stopper waits after seeing `Stop` before it terminates,
/// so that every other subscriber gets to observe the same message first.
pub const STOP_GRACE_MILLIS: u64 = 50;

/// The stopper's lifecycle.
#[derive(Debug, Clone, Copy, PartialEq, Eq, Structural)]
pub enum StopperState {
    /// Observing every message, waiting for `Stop`.
    Watching,
    /// `Stop` was seen; the grace period is running.
    Draining,
    /// The grace period has passed; the bus ends.
    Terminated,
}

impl StopperState {
    /// Observing one message moves a watching stopper to draining exactly on
    /// `Command::Stop`; any later state is unmoved by messages.
    pub open spec fn spec_step(self, payload: Payload) -> StopperState {
        match self {
            StopperState::Watching => if payload == Payload::Command(Command::Stop) {
                StopperState::Draining
            } else {
                StopperState::Watching
            },
            StopperState::Draining => StopperState::Draining,
            StopperState::Terminated => StopperState::Terminated,
        }
    }
}

/// Observe one bus message.
pub fn stopper_step(state: StopperState, message: &Message) -> (next: StopperState)
    ensures
        next == state.spec_step(message.payload),
{
    match state {
        StopperState::Watching => {
            if matches!(message.payload(), Payload::Command(Command::Stop)) {
                StopperState::Draining
            } else {
                StopperState::Watching
            }
        },
        StopperState::Draining => StopperState::Draining,
        StopperState::Terminated => StopperState::Terminated,
    }
}

/// The grace period has elapsed: a draining stopper terminates, and with it
/// the bus, since the bus returns when its first handler completes.
pub fn stopper_finish(state: StopperState) -> (next: StopperState)
    ensures
        next == (if state is Draining {
            StopperState::Terminated
        } else {
            state
        }),
{
    match state {
        StopperState::Draining => StopperState::Terminated,
        other => other,
    }
}

/// The stopper's state after observing a run of messages in order.
pub open spec fn spec_stopper_run(state: StopperState, payloads: Seq<Payload>) -> StopperState
    decreases payloads.len(),
{
    if payloads.len() == 0 {
        state
    } else {
        spec_stopper_run(state.spec_step(payloads.first()), payloads.drop_first())
    }
}

/// Publishing `Stop` shuts the bus down: a watching stopper that observes a
/// run of messages is draining afterwards exactly when some message was
/// `Command::Stop` — it never terminates before its grace period, and never
/// stops on anything else.
pub proof fn lemma_stop_drains(payloads: Seq<Payload>)
    ensures
        spec_stopper_run(StopperState::Watching, payloads) is Draining <==> exists|i: int|
            0 <= i < payloads.len() && payloads[i] == Payload::Command(Command::Stop),
        spec_stopper_run(StopperState::Watching, payloads) is Draining
            || spec_stopper_run(StopperState::Watching, payloads) is Watching,
    decreases payloads.len(),
{
    if payloads.len() > 0 {
        if payloads.first() == Payload::Command(Command::Stop) {
            lemma_draining_stays(StopperState::Draining, payloads.drop_first());
        } else {
            lemma_stop_drains(payloads.drop_first());
            if spec_stopper_run(StopperState::Watching, payloads) is Draining {
                let j = choose|j: int|
                    0 <= j < payloads.drop_first().len() && payloads.drop_first()[j]
                        == Payload::Command(Command::Stop);
                assert(payloads[j + 1] == Payload::Command(Command::Stop));
            }
            if exists|i: int|
                0 <= i < payloads.len() && payloads[i] == Payload::Command(Command::Stop) {
                let i = choose|i: int|
                    0 <= i < payloads.len() && payloads[i] == Payload::Command(Command::Stop);
                assert(i >= 1);
                assert(payloads.drop_first()[i - 1] == Payload::Command(Command::Stop));
            }
        }
    }
}

/// Once draining, further messages change nothing.
proof fn lemma_draining_stays(state: StopperState, payloads: Seq<Payload>)
    requires
        state is Draining || state is Terminated,
    ensures
        spec_stopper_run(state, payloads) == state,
    decreases payloads.len(),
{
    if payloads.len() > 0 {
        lemma_draining_stays(state, payloads.drop_first());
    }
}

} // verus!
