//! Core logic of a small home-automation hub.
//!
//! The crate holds the message vocabulary exchanged between device handlers,
//! the state machines behind the environment sensor, the vibration sensor and
//! the LED strip, the decisions of the edge-to-hub synchronisation client, and
//! the hub's durable event log and claim-based command outbox.
//!
//! Hardware access, networking and persistence live outside this crate; the
//! functions here work on plain values.  Quantities that the devices report as
//! fractions are carried as fixed-point integers so that every contract is
//! exact: temperatures and humidities in millionths of a unit, brightnesses in
//! thousandths of full scale, timestamps in milliseconds since the Unix epoch.

pub mod bus;
mod clock;
pub mod leds;
pub mod legacy;
pub mod measurement;
pub mod message;
pub mod sensor;
pub mod store;
pub mod sync;
pub mod tplink;
pub mod vibration;
