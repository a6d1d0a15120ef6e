//! The smart-plug controller's decisions.
//!
//! Discovery and switching are LAN calls made outside this crate; here is
//! what the handler decides: which commands concern it, which discovered
//! device is the heater, what it reports back on the bus, and how long the
//! heater may stay on.

use vstd::prelude::*;

use crate::message::{Command, Event, Message, Payload, TPLinkDevice};

verus! {

/// Seconds the heater runs before the safety switch-off.
pub const HEATER_ON_TIME_SECONDS: u64 = 90;

/// The device name the heater commands act on.
pub fn heater_alias() -> (r: String)
    ensures
        r@ == "Heater"@,
{
    "Heater".to_owned()
}

/// The network work a command asks for; commands for other handlers ask
/// for none.
#[derive(Debug, Clone, Copy, PartialEq, Eq, Structural)]
pub enum PlugAction {
    /// Scan the LAN and report the devices found.
    Discover,
    /// Find the heater, switch it on, and schedule the switch-off.
    RunHeater,
    /// Find the heater and switch it off.
    StopHeater,
}

pub fn plug_action(command: &Command) -> (r: Option<PlugAction>)
    ensures
        r == (match command {
            Command::ListDevices => Some(PlugAction::Discover),
            Command::RunHeater => Some(PlugAction::RunHeater),
            Command::StopHeater => Some(PlugAction::StopHeater),
            _ => None::<PlugAction>,
        }),
{
    match command {
        Command::ListDevices => Some(PlugAction::Discover),
        Command::RunHeater => Some(PlugAction::RunHeater),
        Command::StopHeater => Some(PlugAction::StopHeater),
        _ => None,
    }
}

/// The first discovered device with the given name, if any.
pub fn find_device_by_alias(devices: &Vec<TPLinkDevice>, alias: &String) -> (r: Option<usize>)
    ensures
        match r {
            Some(i) => {
                &&& 0 <= i < devices@.len()
                &&& devices@[i as int].name@ == alias@
                &&& forall|j: int| 0 <= j < i ==> devices@[j].name@ != alias@
            },
            None => forall|j: int| 0 <= j < devices@.len() ==> devices@[j].name@ != alias@,
        },
{
    let mut i: usize = 0;
    while i < devices.len()
        invariant
            i <= devices@.len(),
            forall|j: int| 0 <= j < i ==> devices@[j].name@ != alias@,
        decreases devices@.len() - i,
    {
        if devices[i].name == *alias {
            return Some(i);
        }
        i += 1;
    }
    None
}

/// The report published after a discovery scan.
pub fn devices_message(devices: Vec<TPLinkDevice>) -> (m: Message)
    ensures
        m.payload == Payload::Event(Event::Devices(devices)),
{
    Message::new_event(Event::Devices(devices))
}

} // verus!
