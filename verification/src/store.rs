//! The hub's durable store: an append-only event log ordered by stamp, a
//! measurement series for later aggregation, and the claim-based command
//! outbox that hands every queued command out at most once.
//!
//! The store is kept as plain rows; binding the rows to an embedded
//! database is persistence plumbing outside this crate.

use vstd::prelude::*;

use crate::clock::now_millis;
use crate::measurement::Measurement;
use crate::message::{clone_payload, spec_payload_eq, Command, Event, Message, Payload};

verus! {

/// `group_token` of an outbox row no cycle has claimed yet.
pub const TOKEN_UNCLAIMED: u32 = 0;

/// `group_token` of a row already handed out; such a row is never claimed
/// again.
pub const TOKEN_RETIRED: u32 = 1;

/// Relies on rand's `random_range`: a value drawn from the given half-open
/// range.  Used for claim tokens, so the range leaves out the unclaimed and
/// retired markers; which token comes back is otherwise immaterial, and
/// every contract here holds for any value in the range.
#[verifier::external_body]
fn random_token() -> (r: u32)
    ensures
        TOKEN_RETIRED < r < u32::MAX,
{
    rand::random_range(2..u32::MAX)
}

/// One outbox row: a queued command, the time it was last touched, and the
/// claim token.
#[derive(Debug, Clone, Copy, PartialEq, Eq, Structural)]
pub struct CommandRow {
    pub stamp: i64,
    pub command: Command,
    pub group_token: u32,
}

/// Rows ordered by stamp, oldest first.
pub open spec fn spec_sorted<T>(rows: Seq<(i64, T)>) -> bool {
    forall|i: int, j: int| 0 <= i < j < rows.len() ==> rows[i].0 <= rows[j].0
}

/// Where a new row with this stamp goes: after every row whose stamp is not
/// later, so rows with equal stamps keep their arrival order.
pub open spec fn spec_insert_pos<T>(rows: Seq<(i64, T)>, stamp: i64) -> int
    decreases rows.len(),
{
    if rows.len() == 0 {
        0
    } else if rows.first().0 > stamp {
        0
    } else {
        1 + spec_insert_pos(rows.drop_first(), stamp)
    }
}

proof fn lemma_insert_pos_split<T>(rows: Seq<(i64, T)>, stamp: i64, i: int)
    requires
        0 <= i <= rows.len(),
        forall|j: int| 0 <= j < i ==> rows[j].0 <= stamp,
        i < rows.len() ==> rows[i].0 > stamp,
    ensures
        spec_insert_pos(rows, stamp) == i,
    decreases i,
{
    if i == 0 {
    } else {
        lemma_insert_pos_split(rows.drop_first(), stamp, i - 1);
    }
}

/// Insert a row at its stamp's place, keeping the order.
fn insert_by_stamp<T>(rows: &mut Vec<(i64, T)>, stamp: i64, value: T)
    requires
        spec_sorted(old(rows)@),
    ensures
        final(rows)@ == old(rows)@.insert(spec_insert_pos(old(rows)@, stamp), (stamp, value)),
        spec_sorted(final(rows)@),
        final(rows)@.len() == old(rows)@.len() + 1,
{
    let ghost orig = rows@;
    let mut i: usize = 0;
    while i < rows.len() && rows[i].0 <= stamp
        invariant
            rows@ == orig,
            i <= orig.len(),
            forall|j: int| 0 <= j < i ==> orig[j].0 <= stamp,
        decreases orig.len() - i,
    {
        i += 1;
    }
    proof {
        lemma_insert_pos_split(orig, stamp, i as int);
    }
    rows.insert(i, (stamp, value));
    proof {
        assert forall|a: int, b: int|
            0 <= a < b < rows@.len() implies rows@[a].0 <= rows@[b].0 by {
            if a < i && b > i {
                assert(rows@[a] == orig[a]);
                assert(rows@[b] == orig[b - 1]);
                if b - 1 >= i {
                    assert(orig[i as int].0 > stamp);
                    assert(orig[a].0 <= stamp);
                }
            }
        }
    }
}

/// The hub store.  Event-log and measurement rows stay ordered by stamp;
/// outbox rows at rest are either unclaimed or retired.
pub struct HubStore {
    pub events: Vec<(i64, Payload)>,
    pub measurements: Vec<(i64, Measurement)>,
    pub commands: Vec<CommandRow>,
}

impl HubStore {
    pub open spec fn wf(self) -> bool {
        &&& spec_sorted(self.events@)
        &&& spec_sorted(self.measurements@)
        &&& forall|i: int|
            0 <= i < self.commands@.len() ==> ((#[trigger] self.commands@[i]).group_token
                == TOKEN_UNCLAIMED || self.commands@[i].group_token == TOKEN_RETIRED)
    }

    pub fn new() -> (s: HubStore)
        ensures
            s.wf(),
            s.events@ == Seq::<(i64, Payload)>::empty(),
            s.measurements@ == Seq::<(i64, Measurement)>::empty(),
            s.commands@ == Seq::<CommandRow>::empty(),
    {
        HubStore { events: Vec::new(), measurements: Vec::new(), commands: Vec::new() }
    }

    /// Append a message to the event log, ordered by its stamp.
    pub fn add_event(&mut self, message: Message)
        requires
            old(self).wf(),
        ensures
            final(self).wf(),
            final(self).events@ == old(self).events@.insert(
                spec_insert_pos(old(self).events@, message.stamp),
                (message.stamp, message.payload),
            ),
            final(self).measurements == old(self).measurements,
            final(self).commands == old(self).commands,
    {
        insert_by_stamp(&mut self.events, message.stamp, message.payload);
    }

    /// The latest `limit` log rows, newest first, each rebuilt as a message.
    pub fn get_latest_events(&self, limit: u32) -> (r: Vec<Message>)
        requires
            self.wf(),
        ensures
            r@.len() == (if limit <= self.events@.len() {
                limit as int
            } else {
                self.events@.len() as int
            }),
            forall|k: int|
                0 <= k < r@.len() ==> {
                    let row = self.events@[self.events@.len() - 1 - k];
                    &&& (#[trigger] r@[k]).stamp == row.0
                    &&& spec_payload_eq(r@[k].payload, row.1)
                },
    {
        let mut out: Vec<Message> = Vec::new();
        let mut k: usize = 0;
        while k < self.events.len() && (k as u64) < (limit as u64)
            invariant
                k <= self.events@.len(),
                k <= limit,
                out@.len() == k,
                forall|j: int|
                    0 <= j < k ==> {
                        let row = self.events@[self.events@.len() - 1 - j];
                        &&& (#[trigger] out@[j]).stamp == row.0
                        &&& spec_payload_eq(out@[j].payload, row.1)
                    },
            decreases self.events@.len() - k,
        {
            let row_index: usize = self.events.len() - 1 - k;
            let stamp: i64 = self.events[row_index].0;
            let payload: Payload = clone_payload(&self.events[row_index].1);
            out.push(Message::raw(stamp, payload));
            k += 1;
        }
        out
    }

    /// The newest log row, if any.
    pub fn get_latest_event(&self) -> (r: Option<Message>)
        requires
            self.wf(),
        ensures
            self.events@.len() == 0 <==> r is None,
            r matches Some(message) ==> {
                let row = self.events@[self.events@.len() - 1];
                &&& message.stamp == row.0
                &&& spec_payload_eq(message.payload, row.1)
            },
    {
        if self.events.len() == 0 {
            None
        } else {
            let row_index: usize = self.events.len() - 1;
            Some(
                Message::raw(self.events[row_index].0, clone_payload(&self.events[row_index].1)),
            )
        }
    }

    /// Record a measurement in the series, ordered by its stamp.
    pub fn add_measurement(&mut self, stamp: i64, measurement: &Measurement)
        requires
            old(self).wf(),
        ensures
            final(self).wf(),
            final(self).measurements@ == old(self).measurements@.insert(
                spec_insert_pos(old(self).measurements@, stamp),
                (stamp, *measurement),
            ),
            final(self).events == old(self).events,
            final(self).commands == old(self).commands,
    {
        insert_by_stamp(&mut self.measurements, stamp, *measurement);
    }

    /// The newest measurement, if any, as a measurement-event message.
    pub fn get_latest_measurement(&self) -> (r: Option<Message>)
        requires
            self.wf(),
        ensures
            self.measurements@.len() == 0 <==> r is None,
            r matches Some(message) ==> {
                let row = self.measurements@[self.measurements@.len() - 1];
                message == (Message {
                    stamp: row.0,
                    payload: Payload::Event(Event::Measurement(row.1)),
                })
            },
    {
        if self.measurements.len() == 0 {
            None
        } else {
            let row_index: usize = self.measurements.len() - 1;
            let row: (i64, Measurement) = self.measurements[row_index];
            Some(Message::raw(row.0, Payload::Event(Event::Measurement(row.1))))
        }
    }

    /// Every measurement taken in the window reaching `since_millis` back
    /// from `now_millis`, newest first.
    pub fn get_measurements_since(&self, now_millis: i64, since_millis: i64) -> (r: Vec<Message>)
        requires
            self.wf(),
        ensures
            ({
                let cutoff = now_millis - since_millis;
                let first = spec_cutoff_index(self.measurements@, cutoff);
                &&& r@.len() == self.measurements@.len() - first
                &&& forall|k: int|
                    0 <= k < r@.len() ==> {
                        let row = self.measurements@[self.measurements@.len() - 1 - k];
                        (#[trigger] r@[k]) == (Message {
                            stamp: row.0,
                            payload: Payload::Event(Event::Measurement(row.1)),
                        })
                    }
            }),
    {
        let ghost cutoff = now_millis - since_millis;
        let cutoff_wide: i128 = now_millis as i128 - since_millis as i128;
        let mut first: usize = 0;
        while first < self.measurements.len() && (self.measurements[first].0 as i128)
            < cutoff_wide
            invariant
                first <= self.measurements@.len(),
                cutoff_wide as int == cutoff,
                forall|j: int| 0 <= j < first ==> self.measurements@[j].0 < cutoff,
            decreases self.measurements@.len() - first,
        {
            first += 1;
        }
        proof {
            lemma_cutoff_index_split(self.measurements@, cutoff, first as int);
        }
        let mut out: Vec<Message> = Vec::new();
        let mut k: usize = 0;
        while k < self.measurements.len() - first
            invariant
                first <= self.measurements@.len(),
                k <= self.measurements@.len() - first,
                out@.len() == k,
                forall|j: int|
                    0 <= j < k ==> {
                        let row = self.measurements@[self.measurements@.len() - 1 - j];
                        (#[trigger] out@[j]) == (Message {
                            stamp: row.0,
                            payload: Payload::Event(Event::Measurement(row.1)),
                        })
                    },
            decreases self.measurements@.len() - first - k,
        {
            let row_index: usize = self.measurements.len() - 1 - k;
            let row: (i64, Measurement) = self.measurements[row_index];
            out.push(Message::raw(row.0, Payload::Event(Event::Measurement(row.1))));
            k += 1;
        }
        out
    }
}

/// First position whose stamp is not before the cutoff; with ordered rows,
/// everything from there on lies in the window.
pub open spec fn spec_cutoff_index<T>(rows: Seq<(i64, T)>, cutoff: int) -> int
    decreases rows.len(),
{
    if rows.len() == 0 {
        0
    } else if rows.first().0 >= cutoff {
        0
    } else {
        1 + spec_cutoff_index(rows.drop_first(), cutoff)
    }
}

proof fn lemma_cutoff_index_split<T>(rows: Seq<(i64, T)>, cutoff: int, i: int)
    requires
        0 <= i <= rows.len(),
        forall|j: int| 0 <= j < i ==> rows[j].0 < cutoff,
        i < rows.len() ==> rows[i].0 >= cutoff,
    ensures
        spec_cutoff_index(rows, cutoff) == i,
    decreases i,
{
    if i == 0 {
    } else {
        lemma_cutoff_index_split(rows.drop_first(), cutoff, i - 1);
    }
}

/// The commands of the rows no cycle has claimed yet, in queue order.
pub open spec fn spec_unclaimed(rows: Seq<CommandRow>) -> Seq<Command>
    decreases rows.len(),
{
    if rows.len() == 0 {
        Seq::empty()
    } else {
        (if rows.first().group_token == TOKEN_UNCLAIMED {
            seq![rows.first().command]
        } else {
            Seq::empty()
        }) + spec_unclaimed(rows.drop_first())
    }
}

/// One claim time covers the whole cycle: every row claimed in it and
/// every message handed out bears the same stamp, so the batch's stamp
/// order is its queue order.
pub open spec fn spec_claim_stamped(
    before: Seq<CommandRow>,
    after: Seq<CommandRow>,
    out: Seq<Message>,
    claim_stamp: i64,
) -> bool {
    &&& forall|i: int|
        0 <= i < before.len() && before[i].group_token == TOKEN_UNCLAIMED ==> (
        #[trigger] after[i]).stamp == claim_stamp
    &&& forall|k: int| 0 <= k < out.len() ==> (#[trigger] out[k]).stamp == claim_stamp
}

proof fn lemma_unclaimed_push(rows: Seq<CommandRow>, row: CommandRow)
    ensures
        spec_unclaimed(rows.push(row)) == spec_unclaimed(rows) + (if row.group_token
            == TOKEN_UNCLAIMED {
            seq![row.command]
        } else {
            Seq::<Command>::empty()
        }),
    decreases rows.len(),
{
    if rows.len() == 0 {
        assert(rows.push(row).drop_first() =~= rows);
        assert(spec_unclaimed(rows.push(row)) =~= spec_unclaimed(rows) + (if row.group_token
            == TOKEN_UNCLAIMED {
            seq![row.command]
        } else {
            Seq::<Command>::empty()
        }));
    } else {
        assert(rows.push(row).first() == rows.first());
        assert(rows.push(row).drop_first() =~= rows.drop_first().push(row));
        lemma_unclaimed_push(rows.drop_first(), row);
        assert(spec_unclaimed(rows.push(row)) =~= spec_unclaimed(rows) + (if row.group_token
            == TOKEN_UNCLAIMED {
            seq![row.command]
        } else {
            Seq::<Command>::empty()
        }));
    }
}

proof fn lemma_unclaimed_none(rows: Seq<CommandRow>)
    requires
        forall|i: int| 0 <= i < rows.len() ==> (#[trigger] rows[i]).group_token != TOKEN_UNCLAIMED,
    ensures
        spec_unclaimed(rows) == Seq::<Command>::empty(),
    decreases rows.len(),
{
    if rows.len() > 0 {
        assert(rows[0] == rows.first());
        lemma_unclaimed_none(rows.drop_first());
        assert(spec_unclaimed(rows) =~= Seq::<Command>::empty());
    }
}

impl HubStore {
    /// Put a command in the outbox, unclaimed, stamped with the current
    /// time.
    pub fn queue_command(&mut self, command: Command)
        requires
            old(self).wf(),
        ensures
            final(self).wf(),
            final(self).commands@.len() == old(self).commands@.len() + 1,
            final(self).commands@.drop_last() == old(self).commands@,
            final(self).commands@.last().command == command,
            final(self).commands@.last().group_token == TOKEN_UNCLAIMED,
            final(self).events == old(self).events,
            final(self).measurements == old(self).measurements,
    {
        let stamp: i64 = now_millis();
        self.commands.push(CommandRow { stamp, command, group_token: TOKEN_UNCLAIMED });
        proof {
            assert(final(self).commands@.drop_last() =~= old(self).commands@);
        }
    }

    /// The claim protocol: stamp every unclaimed row with a fresh random
    /// token and the claim time, hand exactly those rows out in queue
    /// order, and retire the token so no later cycle sees them again.
    ///
    /// Each queued command is therefore returned by at most one call,
    /// whatever token the generator supplies.  The three steps run on an
    /// exclusively borrowed store, which is what makes them one logical
    /// transaction; a binding that shares the rows with a second writer
    /// would have to keep a concurrent claim from interleaving between
    /// them, or two cycles could hand the same row out.
    pub fn dequeue_commands(&mut self) -> (r: Vec<Message>)
        requires
            old(self).wf(),
        ensures
            final(self).wf(),
            final(self).events == old(self).events,
            final(self).measurements == old(self).measurements,
            final(self).commands@.len() == old(self).commands@.len(),
            forall|i: int|
                0 <= i < old(self).commands@.len() ==> {
                    let o = old(self).commands@[i];
                    let n = #[trigger] final(self).commands@[i];
                    &&& n.command == o.command
                    &&& (o.group_token == TOKEN_UNCLAIMED ==> n.group_token == TOKEN_RETIRED)
                    &&& (o.group_token != TOKEN_UNCLAIMED ==> n == o)
                },
            r@.len() == spec_unclaimed(old(self).commands@).len(),
            forall|k: int|
                0 <= k < r@.len() ==> (#[trigger] r@[k]).payload == Payload::Command(
                    spec_unclaimed(old(self).commands@)[k],
                ),
            spec_unclaimed(final(self).commands@) == Seq::<Command>::empty(),
            exists|claim_stamp: i64|
                spec_claim_stamped(old(self).commands@, final(self).commands@, r@, claim_stamp),
    {
        let token: u32 = random_token();
        let stamp: i64 = now_millis();
        let ghost orig = self.commands@;
        // claim: move every unclaimed row under this cycle's token
        let mut i: usize = 0;
        while i < self.commands.len()
            invariant
                self.commands@.len() == orig.len(),
                TOKEN_RETIRED < token < u32::MAX,
                forall|j: int|
                    0 <= j < orig.len() ==> ((#[trigger] orig[j]).group_token == TOKEN_UNCLAIMED
                        || orig[j].group_token == TOKEN_RETIRED),
                forall|j: int|
                    0 <= j < i ==> {
                        let o = orig[j];
                        let n = #[trigger] self.commands@[j];
                        &&& n.command == o.command
                        &&& (o.group_token == TOKEN_UNCLAIMED ==> n == (CommandRow {
                            stamp,
                            command: o.command,
                            group_token: token,
                        }))
                        &&& (o.group_token != TOKEN_UNCLAIMED ==> n == o)
                    },
                forall|j: int| i <= j < orig.len() ==> #[trigger] self.commands@[j] == orig[j],
                self.events == old(self).events,
                self.measurements == old(self).measurements,
            decreases orig.len() - i,
        {
            if self.commands[i].group_token == TOKEN_UNCLAIMED {
                let command: Command = self.commands[i].command;
                self.commands.set(i, CommandRow { stamp, command, group_token: token });
            }
            i += 1;
        }
        // read: collect this cycle's rows, in queue order
        let ghost claimed = self.commands@;
        let mut out: Vec<Message> = Vec::new();
        let mut i: usize = 0;
        while i < self.commands.len()
            invariant
                self.commands@ == claimed,
                claimed.len() == orig.len(),
                TOKEN_RETIRED < token < u32::MAX,
                forall|j: int|
                    0 <= j < orig.len() ==> ((#[trigger] orig[j]).group_token == TOKEN_UNCLAIMED
                        || orig[j].group_token == TOKEN_RETIRED),
                forall|j: int|
                    0 <= j < orig.len() ==> {
                        let o = orig[j];
                        let n = #[trigger] claimed[j];
                        &&& n.command == o.command
                        &&& (o.group_token == TOKEN_UNCLAIMED ==> n == (CommandRow {
                            stamp,
                            command: o.command,
                            group_token: token,
                        }))
                        &&& (o.group_token != TOKEN_UNCLAIMED ==> n == o)
                    },
                i <= orig.len(),
                out@.len() == spec_unclaimed(orig.subrange(0, i as int)).len(),
                forall|k: int|
                    0 <= k < out@.len() ==> (#[trigger] out@[k]).payload == Payload::Command(
                        spec_unclaimed(orig.subrange(0, i as int))[k],
                    ),
                forall|k: int| 0 <= k < out@.len() ==> (#[trigger] out@[k]).stamp == stamp,
                self.events == old(self).events,
                self.measurements == old(self).measurements,
            decreases orig.len() - i,
        {
            proof {
                assert(orig.subrange(0, i + 1) =~= orig.subrange(0, i as int).push(
                    orig[i as int],
                ));
                lemma_unclaimed_push(orig.subrange(0, i as int), orig[i as int]);
            }
            if self.commands[i].group_token == token {
                let row: CommandRow = self.commands[i];
                out.push(Message::raw(row.stamp, Payload::Command(row.command)));
            }
            i += 1;
        }
        proof {
            assert(orig.subrange(0, orig.len() as int) =~= orig);
        }
        // retire: this cycle's rows can never be claimed again
        let ghost collected = out@;
        let mut i: usize = 0;
        while i < self.commands.len()
            invariant
                self.commands@.len() == orig.len(),
                TOKEN_RETIRED < token < u32::MAX,
                forall|j: int|
                    0 <= j < orig.len() ==> ((#[trigger] orig[j]).group_token == TOKEN_UNCLAIMED
                        || orig[j].group_token == TOKEN_RETIRED),
                forall|j: int|
                    i <= j < orig.len() ==> #[trigger] self.commands@[j] == claimed[j],
                forall|j: int|
                    0 <= j < orig.len() ==> {
                        let o = orig[j];
                        let n = #[trigger] claimed[j];
                        &&& n.command == o.command
                        &&& (o.group_token == TOKEN_UNCLAIMED ==> n == (CommandRow {
                            stamp,
                            command: o.command,
                            group_token: token,
                        }))
                        &&& (o.group_token != TOKEN_UNCLAIMED ==> n == o)
                    },
                forall|j: int|
                    0 <= j < i ==> {
                        let o = orig[j];
                        let n = #[trigger] self.commands@[j];
                        &&& n.command == o.command
                        &&& (o.group_token == TOKEN_UNCLAIMED ==> n == (CommandRow {
                            stamp,
                            command: o.command,
                            group_token: TOKEN_RETIRED,
                        }))
                        &&& (o.group_token != TOKEN_UNCLAIMED ==> n == o)
                    },
                self.events == old(self).events,
                self.measurements == old(self).measurements,
            decreases orig.len() - i,
        {
            if self.commands[i].group_token == token {
                let command: Command = self.commands[i].command;
                let row_stamp: i64 = self.commands[i].stamp;
                self.commands.set(
                    i,
                    CommandRow { stamp: row_stamp, command, group_token: TOKEN_RETIRED },
                );
            }
            i += 1;
        }
        proof {
            assert forall|j: int|
                0 <= j < self.commands@.len() implies (#[trigger] self.commands@[j]).group_token
                != TOKEN_UNCLAIMED by {}
            lemma_unclaimed_none(self.commands@);
            assert(spec_claim_stamped(orig, self.commands@, out@, stamp));
        }
        out
    }
}

/// The event log after a batch of messages is appended, each at its
/// stamp's place, in batch order.
pub open spec fn spec_log_after(rows: Seq<(i64, Payload)>, msgs: Seq<Message>) -> Seq<
    (i64, Payload),
>
    decreases msgs.len(),
{
    if msgs.len() == 0 {
        rows
    } else {
        spec_log_after(
            rows.insert(
                spec_insert_pos(rows, msgs.first().stamp),
                (msgs.first().stamp, msgs.first().payload),
            ),
            msgs.drop_first(),
        )
    }
}

/// The measurement series after a batch: only measurement events join it.
pub open spec fn spec_series_after(rows: Seq<(i64, Measurement)>, msgs: Seq<Message>) -> Seq<
    (i64, Measurement),
>
    decreases msgs.len(),
{
    if msgs.len() == 0 {
        rows
    } else {
        match msgs.first().payload {
            Payload::Event(Event::Measurement(m)) => spec_series_after(
                rows.insert(spec_insert_pos(rows, msgs.first().stamp), (msgs.first().stamp, m)),
                msgs.drop_first(),
            ),
            _ => spec_series_after(rows, msgs.drop_first()),
        }
    }
}

/// The hub's side of one sync cycle: append every received event to the log
/// (measurements also join the series), then claim and return the pending
/// commands.
pub fn store_events(store: &mut HubStore, events: Vec<Message>) -> (r: Vec<Message>)
    requires
        old(store).wf(),
    ensures
        final(store).wf(),
        final(store).events@ == spec_log_after(old(store).events@, events@),
        final(store).measurements@ == spec_series_after(old(store).measurements@, events@),
        final(store).commands@.len() == old(store).commands@.len(),
        forall|i: int|
            0 <= i < old(store).commands@.len() ==> {
                let o = old(store).commands@[i];
                let n = #[trigger] final(store).commands@[i];
                &&& n.command == o.command
                &&& (o.group_token == TOKEN_UNCLAIMED ==> n.group_token == TOKEN_RETIRED)
                &&& (o.group_token != TOKEN_UNCLAIMED ==> n == o)
            },
        r@.len() == spec_unclaimed(old(store).commands@).len(),
        forall|k: int|
            0 <= k < r@.len() ==> (#[trigger] r@[k]).payload == Payload::Command(
                spec_unclaimed(old(store).commands@)[k],
            ),
        spec_unclaimed(final(store).commands@) == Seq::<Command>::empty(),
        exists|claim_stamp: i64|
            spec_claim_stamped(old(store).commands@, final(store).commands@, r@, claim_stamp),
{
    let mut remaining: Vec<Message> = events;
    let ghost orig_log = store.events@;
    let ghost orig_series = store.measurements@;
    let ghost orig_msgs = remaining@;
    while remaining.len() > 0
        invariant
            store.wf(),
            spec_log_after(orig_log, orig_msgs) == spec_log_after(store.events@, remaining@),
            spec_series_after(orig_series, orig_msgs) == spec_series_after(
                store.measurements@,
                remaining@,
            ),
            store.commands == old(store).commands,
        decreases remaining@.len(),
    {
        let message: Message = remaining.remove(0);
        let ghost before = remaining@.insert(0, message);
        proof {
            assert(before.first() == message);
            assert(before.drop_first() =~= remaining@);
        }
        let stamp: i64 = message.stamp;
        let measurement: Option<Measurement> = match message.payload() {
            Payload::Event(Event::Measurement(m)) => Some(*m),
            _ => None,
        };
        store.add_event(message);
        if let Some(m) = measurement {
            store.add_measurement(stamp, &m);
        }
    }
    store.dequeue_commands()
}

/// Whether a heater run may be queued: only when no run was requested in
/// the last two whole minutes — the elapsed time, truncated to minutes,
/// must exceed two.
pub fn can_run_heater(now_millis: i64, latest_heater_stamp: Option<i64>) -> (r: bool)
    ensures
        r == (match latest_heater_stamp {
            None => true,
            Some(stamp) => now_millis - stamp >= 180_000,
        }),
{
    match latest_heater_stamp {
        None => true,
        Some(stamp) => (now_millis as i128 - stamp as i128) >= 180_000,
    }
}

} // verus!
