//! The vibration ("tap") sensor: debouncing hardware edge interrupts.

use vstd::prelude::*;

verus! {

/// Milliseconds that must pass after an accepted interrupt before another
/// one counts as a new tap rather than as bounce noise.
pub const INTERRUPT_BOUNCE_MILLIS: i64 = 300;

/// Debounce state: when the last accepted interrupt happened, in
/// milliseconds since the Unix epoch.
pub struct VibrationSensor {
    pub last_event_millis: i64,
}

impl VibrationSensor {
    /// Start the bounce window at the moment the interrupt loop begins.
    pub fn new(now_millis: i64) -> (s: VibrationSensor)
        ensures
            s.last_event_millis == now_millis,
    {
        VibrationSensor { last_event_millis: now_millis }
    }

    /// An interrupt at `now_millis` is a tap exactly when more than the
    /// bounce window has passed since the last accepted one; the window then
    /// restarts.  A bounce changes nothing.
    pub fn on_interrupt(&mut self, now_millis: i64) -> (tap: bool)
        ensures
            tap == (now_millis - old(self).last_event_millis > INTERRUPT_BOUNCE_MILLIS),
            tap ==> final(self).last_event_millis == now_millis,
            !tap ==> *final(self) == *old(self),
    {
        let elapsed: i128 = now_millis as i128 - self.last_event_millis as i128;
        if elapsed > INTERRUPT_BOUNCE_MILLIS as i128 {
            self.last_event_millis = now_millis;
            true
        } else {
            false
        }
    }
}

} // verus!
