//! The environment sensor driver: bounded-retry reads with backoff, and
//! change suppression with a heartbeat.

use vstd::prelude::*;

use crate::measurement::Measurement;
use crate::message::{Command, Event, Message, Payload};
use vstd::arithmetic::mul::{lemma_mul_inequality, lemma_mul_is_commutative};

verus! {

/// Consecutive failed reads tolerated before a backoff pause.
pub const SENSOR_ERROR_LIMIT: u8 = 3;

/// Backoff pauses taken before the sensor is declared dead.
pub const SENSOR_ERROR_BACKOFF_LIMIT: u8 = 3;

/// Seconds between reads when every reading is fresh.
pub const SENSOR_SLEEP: u64 = 30;

/// Unchanged readings suppressed in a row before one is emitted anyway.
pub const SENSOR_MAX_SKIP: u8 = 10;

/// Failed reads tolerated in all before the sensor is given up: one more
/// than the error limit for each unit of backoff budget, plus the final
/// burst — four bursts of four.
pub const SENSOR_FAILURE_BUDGET: u8 = 16;

/// Why a read failed.
#[derive(Debug, Clone, Copy, PartialEq, Eq, Structural)]
pub enum SensorError {
    /// Something went wrong while writing to the sensor.
    WriteError,
    /// Something went wrong while reading from the sensor.
    ReadError,
    /// The sensor returned data that is out of spec.
    OutOfSpec,
}

/// The physical sensor: one blocking read, and the pause taken between retry
/// bursts.  Implementations live outside the verified crate (the hardware
/// driver, or a scripted sensor under test), so nothing is assumed of
/// `read`'s outcome, and every caller's contract holds whatever comes back.
pub trait Sensor {
    fn read(&mut self) -> Result<Measurement, SensorError>;

    /// Wait the given number of seconds before the next attempt.
    fn pause(&mut self, seconds: u64);
}

/// Where the retry loop stands: failed reads since the last pause, and
/// pauses taken so far.
#[derive(Debug, Clone, Copy, PartialEq, Eq, Structural)]
pub struct BackoffState {
    pub error_count: u8,
    pub backoff_count: u8,
}

/// What the driver does after a failed read.
#[derive(Debug, Clone, Copy, PartialEq, Eq, Structural)]
pub enum BackoffStep {
    /// Try again at once.
    Continue,
    /// Pause this many seconds, then try again.
    Pause(u64),
    /// The backoff budget is spent: pause one last interval, then report
    /// permanent failure.
    GiveUp(u64),
}

impl BackoffState {
    pub open spec fn spec_start() -> BackoffState {
        BackoffState { error_count: 0, backoff_count: 0 }
    }

    pub open spec fn wf(self) -> bool {
        self.error_count <= SENSOR_ERROR_LIMIT && self.backoff_count
            <= SENSOR_ERROR_BACKOFF_LIMIT
    }

    /// Failed reads absorbed so far: each pause stands for a full burst of
    /// four.
    pub open spec fn spec_spent(self) -> int {
        4 * self.backoff_count + self.error_count
    }

    /// The state and step after one more failed read: count it; at the error
    /// limit, pause for one more base interval than last time; once the
    /// backoff budget is spent as well, give up.
    pub open spec fn spec_on_failure(self, base_interval: u64) -> (BackoffState, BackoffStep) {
        if self.error_count < SENSOR_ERROR_LIMIT {
            (
                BackoffState { error_count: (self.error_count + 1) as u8, ..self },
                BackoffStep::Continue,
            )
        } else if self.backoff_count < SENSOR_ERROR_BACKOFF_LIMIT {
            (
                BackoffState {
                    error_count: 0,
                    backoff_count: (self.backoff_count + 1) as u8,
                },
                BackoffStep::Pause((base_interval * (self.backoff_count + 1)) as u64),
            )
        } else {
            (self, BackoffStep::GiveUp((base_interval * (self.backoff_count + 1)) as u64))
        }
    }

    pub fn start() -> (s: BackoffState)
        ensures
            s == BackoffState::spec_start(),
    {
        BackoffState { error_count: 0, backoff_count: 0 }
    }

    pub fn on_failure(&mut self, base_interval: u64) -> (step: BackoffStep)
        requires
            old(self).wf(),
            4 * base_interval <= u64::MAX,
        ensures
            (*final(self), step) == old(self).spec_on_failure(base_interval),
            final(self).wf(),
            !(step is GiveUp) ==> final(self).spec_spent() == old(self).spec_spent() + 1,
    {
        if self.error_count < SENSOR_ERROR_LIMIT {
            self.error_count = self.error_count + 1;
            BackoffStep::Continue
        } else {
            proof {
                lemma_mul_inequality(
                    self.backoff_count + 1,
                    4,
                    base_interval as int,
                );
                lemma_mul_is_commutative(self.backoff_count + 1, base_interval as int);
            }
            let pause: u64 = base_interval * ((self.backoff_count as u64) + 1);
            if self.backoff_count < SENSOR_ERROR_BACKOFF_LIMIT {
                self.error_count = 0;
                self.backoff_count = self.backoff_count + 1;
                BackoffStep::Pause(pause)
            } else {
                BackoffStep::GiveUp(pause)
            }
        }
    }
}

/// Read the sensor until a reading arrives or the retry budget is spent.
///
/// Bursts of up to four attempts run back to back; each later burst is
/// preceded by a pause of one more `sensor_sleep` than the one before.  After
/// sixteen failed reads in all, the sensor is reported permanently failed.
pub fn read_measurement<S: Sensor>(sensor: &mut S, sensor_sleep: u64) -> (r: Option<Measurement>)
    requires
        4 * sensor_sleep <= u64::MAX,
{
    let mut state: BackoffState = BackoffState::start();
    loop
        invariant
            state.wf(),
            4 * sensor_sleep <= u64::MAX,
        decreases SENSOR_FAILURE_BUDGET - state.spec_spent(),
    {
        match sensor.read() {
            Ok(measurement) => {
                return Some(measurement);
            },
            Err(_) => {
                match state.on_failure(sensor_sleep) {
                    BackoffStep::Continue => {},
                    BackoffStep::Pause(seconds) => {
                        sensor.pause(seconds);
                    },
                    BackoffStep::GiveUp(seconds) => {
                        sensor.pause(seconds);
                        return None;
                    },
                }
            },
        }
    }
}

/// Outcome of a run of failed reads, starting from a fresh driver.
pub struct BackoffRun {
    pub state: BackoffState,
    pub paused: bool,
    pub gave_up: bool,
}

/// The driver's standing after `n` consecutive failed reads.
pub open spec fn spec_failures(base_interval: u64, n: nat) -> BackoffRun
    decreases n,
{
    if n == 0 {
        BackoffRun { state: BackoffState::spec_start(), paused: false, gave_up: false }
    } else {
        let prev = spec_failures(base_interval, (n - 1) as nat);
        if prev.gave_up {
            prev
        } else {
            let (state, step) = prev.state.spec_on_failure(base_interval);
            BackoffRun {
                state,
                paused: prev.paused || step is Pause,
                gave_up: step is GiveUp,
            }
        }
    }
}

/// Up to the error limit, failed reads cost nothing: the driver neither
/// pauses nor gives up, so a following successful read is returned at once.
pub proof fn lemma_failures_within_error_limit(base_interval: u64, n: nat)
    requires
        n <= SENSOR_ERROR_LIMIT,
    ensures
        !spec_failures(base_interval, n).paused,
        !spec_failures(base_interval, n).gave_up,
        spec_failures(base_interval, n).state == (BackoffState {
            error_count: n as u8,
            backoff_count: 0,
        }),
    decreases n,
{
    if n > 0 {
        lemma_failures_within_error_limit(base_interval, (n - 1) as nat);
    }
}

/// While the budget lasts, every failed read is accounted against it.
pub proof fn lemma_failures_spend_budget(base_interval: u64, n: nat)
    requires
        n <= SENSOR_FAILURE_BUDGET - 1,
    ensures
        !spec_failures(base_interval, n).gave_up,
        spec_failures(base_interval, n).state.wf(),
        spec_failures(base_interval, n).state.spec_spent() == n,
    decreases n,
{
    if n > 0 {
        lemma_failures_spend_budget(base_interval, (n - 1) as nat);
    }
}

/// Once the whole budget is spent — sixteen failed reads — the driver gives
/// the sensor up and reports no reading.
pub proof fn lemma_failures_exhaust_budget(base_interval: u64, n: nat)
    requires
        n >= SENSOR_FAILURE_BUDGET,
    ensures
        spec_failures(base_interval, n).gave_up,
    decreases n,
{
    if n == SENSOR_FAILURE_BUDGET {
        lemma_failures_spend_budget(base_interval, (n - 1) as nat);
    } else {
        lemma_failures_exhaust_budget(base_interval, (n - 1) as nat);
    }
}

/// A reading goes on the bus when it differs from the last emitted one (on
/// temperature, within the tolerance) or when the run of suppressed
/// readings has reached the limit, so that a heartbeat goes out even under
/// a static environment.
pub open spec fn spec_should_send(
    measurement: Measurement,
    previous_data: Option<Measurement>,
    num_skipped: u8,
) -> bool {
    (match previous_data {
        Some(previous) => !previous.spec_temperature_roughly_equal(measurement),
        None => true,
    }) || num_skipped >= SENSOR_MAX_SKIP
}

pub fn should_send(
    measurement: &Measurement,
    previous_data: &Option<Measurement>,
    num_skipped: u8,
) -> (r: bool)
    ensures
        r == spec_should_send(*measurement, *previous_data, num_skipped),
{
    let is_changed: bool = match previous_data {
        Some(previous) => !previous.temperature_roughly_equal(measurement),
        None => true,
    };
    is_changed || num_skipped >= SENSOR_MAX_SKIP
}

/// Turn one read outcome into what goes on the bus.
///
/// A fresh (or overdue) reading resets the skip counter, becomes the new
/// reference and is emitted; an unchanged reading is counted and suppressed;
/// a failed read asks the bus to stop.
pub fn handle_measurement(
    measurement: Option<Measurement>,
    previous_data: &mut Option<Measurement>,
    num_skipped: &mut u8,
) -> (r: Option<Message>)
    ensures
        match measurement {
            Some(m) => {
                if spec_should_send(m, *old(previous_data), *old(num_skipped)) {
                    &&& *final(previous_data) == Some(m)
                    &&& *final(num_skipped) == 0
                    &&& (r matches Some(msg) && msg.payload == Payload::Event(
                        Event::Measurement(m),
                    ))
                } else {
                    &&& *final(previous_data) == *old(previous_data)
                    &&& *final(num_skipped) == *old(num_skipped) + 1
                    &&& r is None
                }
            },
            None => {
                &&& *final(previous_data) == *old(previous_data)
                &&& *final(num_skipped) == *old(num_skipped)
                &&& (r matches Some(msg) && msg.payload == Payload::Command(Command::Stop))
            },
        },
{
    if let Some(measurement) = measurement {
        if should_send(&measurement, previous_data, *num_skipped) {
            *num_skipped = 0;
            *previous_data = Some(measurement);
            Some(Message::new_event(Event::Measurement(measurement)))
        } else {
            *num_skipped = *num_skipped + 1;
            None
        }
    } else {
        Some(Message::new_command(Command::Stop))
    }
}

/// Seconds to wait before the next read: the base interval, plus half of it
/// for each reading suppressed in a row.
pub fn sleep_seconds(num_skipped: u8) -> (r: u64)
    ensures
        r == SENSOR_SLEEP + (SENSOR_SLEEP / 2) * (num_skipped as u64),
{
    SENSOR_SLEEP + (SENSOR_SLEEP / 2) * (num_skipped as u64)
}

/// The bus-facing sensor state: the last emitted reading and how many
/// readings were suppressed since.
pub struct EnvironmentSensor {
    pub previous_data: Option<Measurement>,
    pub num_skipped: u8,
}

impl EnvironmentSensor {
    pub fn new() -> (s: EnvironmentSensor)
        ensures
            s.previous_data is None,
            s.num_skipped == 0,
    {
        EnvironmentSensor { previous_data: None, num_skipped: 0 }
    }

    /// Decide on one read outcome what to put on the bus; see
    /// [`handle_measurement`].
    pub fn step(&mut self, measurement: Option<Measurement>) -> (r: Option<Message>)
        ensures
            match measurement {
                Some(m) => {
                    if spec_should_send(
                        m,
                        old(self).previous_data,
                        old(self).num_skipped,
                    ) {
                        &&& final(self).previous_data == Some(m)
                        &&& final(self).num_skipped == 0
                        &&& (r matches Some(msg) && msg.payload == Payload::Event(
                            Event::Measurement(m),
                        ))
                    } else {
                        &&& final(self).previous_data == old(self).previous_data
                        &&& final(self).num_skipped == old(self).num_skipped + 1
                        &&& r is None
                    }
                },
                None => {
                    &&& *final(self) == *old(self)
                    &&& (r matches Some(msg) && msg.payload == Payload::Command(Command::Stop))
                },
            },
    {
        handle_measurement(measurement, &mut self.previous_data, &mut self.num_skipped)
    }
}

/// The sensor states reached by feeding one reading over and over.
pub open spec fn spec_repeated_readings(start: (Option<Measurement>, u8), m: Measurement, n: nat) -> (
    Option<Measurement>,
    u8,
)
    decreases n,
{
    if n == 0 {
        start
    } else {
        let prev = spec_repeated_readings(start, m, (n - 1) as nat);
        if spec_should_send(m, prev.0, prev.1) {
            (Some(m), 0u8)
        } else {
            (prev.0, (prev.1 + 1) as u8)
        }
    }
}

/// The heartbeat: after a reading is emitted, the same reading is
/// suppressed only while the skip counter is below the limit, so exactly
/// `SENSOR_MAX_SKIP` repetitions in a row are swallowed; the repetition
/// after that — with `max_skip` unchanged readings already counted — is
/// emitted even though nothing changed, and the counter starts over.
pub proof fn lemma_unchanged_heartbeat(m: Measurement)
    ensures
        forall|n: nat|
            n <= SENSOR_MAX_SKIP ==> #[trigger] spec_repeated_readings((Some(m), 0u8), m, n)
                == (Some(m), n as u8),
        !spec_should_send(m, Some(m), (SENSOR_MAX_SKIP - 1) as u8),
        spec_should_send(m, Some(m), SENSOR_MAX_SKIP as u8),
        spec_repeated_readings((Some(m), 0u8), m, (SENSOR_MAX_SKIP + 1) as nat) == (
            Some(m),
            0u8,
        ),
{
    assert forall|n: nat|
        n <= SENSOR_MAX_SKIP implies #[trigger] spec_repeated_readings((Some(m), 0u8), m, n)
        == (Some(m), n as u8) by {
        lemma_unchanged_counts(m, n);
    }
    lemma_unchanged_counts(m, SENSOR_MAX_SKIP as nat);
    assert(spec_repeated_readings((Some(m), 0u8), m, (SENSOR_MAX_SKIP + 1) as nat) == (
    Some(m),
    0u8,
    )) by {
        let prev = spec_repeated_readings(
            (Some(m), 0u8),
            m,
            ((SENSOR_MAX_SKIP + 1) as nat - 1) as nat,
        );
        lemma_unchanged_counts(m, ((SENSOR_MAX_SKIP + 1) as nat - 1) as nat);
        assert(prev == (Some(m), SENSOR_MAX_SKIP as u8));
        assert(spec_should_send(m, prev.0, prev.1));
    }
}

proof fn lemma_unchanged_counts(m: Measurement, n: nat)
    requires
        n <= SENSOR_MAX_SKIP,
    ensures
        spec_repeated_readings((Some(m), 0u8), m, n) == (Some(m), n as u8),
    decreases n,
{
    if n > 0 {
        lemma_unchanged_counts(m, (n - 1) as nat);
    }
}

} // verus!
