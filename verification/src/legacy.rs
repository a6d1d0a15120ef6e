//! The earlier message vocabulary.
//!
//! Historical rows in the hub's store still carry these tags, so the
//! variants and their type names are kept exactly as they were written.

use vstd::prelude::*;

use crate::message::TPLinkDevice;

verus! {

/// A tap gesture, in the old vocabulary.
#[derive(Debug, Clone, PartialEq, Eq, Structural)]
pub enum TapEvent {
    SingleTap,
}

impl TapEvent {
    pub open spec fn spec_event_type(self) -> Seq<char> {
        match self {
            TapEvent::SingleTap => "single-tap"@,
        }
    }

    pub fn event_type(&self) -> (r: String)
        ensures
            r@ == self.spec_event_type(),
    {
        match self {
            TapEvent::SingleTap => "single-tap".to_owned(),
        }
    }
}

/// Smart-plug traffic, in the old vocabulary.
#[derive(Debug, Clone, PartialEq)]
pub enum TPLinkEvent {
    ListDevices,
    DeviceList(Vec<TPLinkDevice>),
    RunHeater,
    HeaterStarted,
    HeaterStopped,
}

impl TPLinkEvent {
    pub open spec fn spec_event_type(self) -> Seq<char> {
        match self {
            TPLinkEvent::ListDevices => "list-devices"@,
            TPLinkEvent::DeviceList(_) => "device-list"@,
            TPLinkEvent::RunHeater => "run-heater"@,
            TPLinkEvent::HeaterStarted => "heater-started"@,
            TPLinkEvent::HeaterStopped => "heater-stopped"@,
        }
    }

    pub fn event_type(&self) -> (r: String)
        ensures
            r@ == self.spec_event_type(),
    {
        match self {
            TPLinkEvent::ListDevices => "list-devices".to_owned(),
            TPLinkEvent::DeviceList(_) => "device-list".to_owned(),
            TPLinkEvent::RunHeater => "run-heater".to_owned(),
            TPLinkEvent::HeaterStarted => "heater-started".to_owned(),
            TPLinkEvent::HeaterStopped => "heater-stopped".to_owned(),
        }
    }
}

} // verus!
