//! The tagged messages exchanged on every boundary of the hub.
//!
//! A [`Message`] pairs a timestamp with a [`Payload`]: either an [`Event`]
//! (a fact a device observed) or a [`Command`] (a directive for a device).

use vstd::prelude::*;

use crate::clock::now_millis;
use crate::measurement::Measurement;

verus! {

/// A named smart plug found on the local network.
#[derive(Debug, Clone, PartialEq)]
pub struct TPLinkDevice {
    pub name: String,
}

/// A directive for one of the device handlers.
#[derive(Debug, Clone, Copy, PartialEq, Eq, Structural)]
pub enum Command {
    ListDevices,
    RunHeater,
    StopHeater,
    /// The requested brightness, in thousandths of full scale.
    SetBrightness(u16),
    UpdateLEDs,
    RunParty,
    Stop,
}

/// A fact observed by one of the device handlers.
#[derive(Debug, Clone, PartialEq)]
pub enum Event {
    Measurement(Measurement),
    MeasurementFailure,
    SingleTap,
    Devices(Vec<TPLinkDevice>),
    HeaterStarted,
    HeaterStopped,
    /// The brightness now rendered, in thousandths of full scale.
    LEDBrightness(u16),
    LEDColours(Vec<(u8, u8, u8)>),
    Started,
}

/// What a message carries: a fact or a directive.
#[derive(Debug, Clone, PartialEq)]
pub enum Payload {
    Command(Command),
    Event(Event),
}

/// The unit exchanged on the bus, over the wire and in the hub's store.
///
/// The stamp is in milliseconds since the Unix epoch.  It defaults to the
/// creation time but may be given outright when a message is rebuilt from a
/// stored row.
#[derive(Debug, Clone, PartialEq)]
pub struct Message {
    pub stamp: i64,
    pub payload: Payload,
}

impl Message {
    /// A message stamped with the current time.
    pub fn new(payload: Payload) -> (m: Message)
        ensures
            m.payload == payload,
    {
        Self::raw(now_millis(), payload)
    }

    /// A message with an explicit stamp.
    pub fn raw(stamp: i64, payload: Payload) -> (m: Message)
        ensures
            m == (Message { stamp, payload }),
    {
        Message { stamp, payload }
    }

    pub fn new_command(command: Command) -> (m: Message)
        ensures
            m.payload == Payload::Command(command),
    {
        Self::new(Payload::Command(command))
    }

    pub fn new_event(event: Event) -> (m: Message)
        ensures
            m.payload == Payload::Event(event),
    {
        Self::new(Payload::Event(event))
    }

    pub fn stamp(&self) -> (r: i64)
        ensures
            r == self.stamp,
    {
        self.stamp
    }

    pub fn payload(&self) -> (r: &Payload)
        ensures
            *r == self.payload,
    {
        &self.payload
    }

    /// The command carried, if the payload is a directive.
    pub fn into_command(self) -> (r: Option<Command>)
        ensures
            r == (match self.payload {
                Payload::Command(command) => Some(command),
                Payload::Event(_) => None::<Command>,
            }),
    {
        match self.payload {
            Payload::Command(command) => Some(command),
            Payload::Event(_) => None,
        }
    }

    /// The event carried, if the payload is a fact.
    pub fn into_event(self) -> (r: Option<Event>)
        ensures
            r == (match self.payload {
                Payload::Event(event) => Some(event),
                Payload::Command(_) => None::<Event>,
            }),
    {
        match self.payload {
            Payload::Event(event) => Some(event),
            Payload::Command(_) => None,
        }
    }
}

/// Events compare by content: list payloads by their elements, everything
/// else by value.
pub open spec fn spec_event_eq(a: Event, b: Event) -> bool {
    match (a, b) {
        (Event::Measurement(x), Event::Measurement(y)) => x == y,
        (Event::MeasurementFailure, Event::MeasurementFailure) => true,
        (Event::SingleTap, Event::SingleTap) => true,
        (Event::Devices(x), Event::Devices(y)) => x@ == y@,
        (Event::HeaterStarted, Event::HeaterStarted) => true,
        (Event::HeaterStopped, Event::HeaterStopped) => true,
        (Event::LEDBrightness(x), Event::LEDBrightness(y)) => x == y,
        (Event::LEDColours(x), Event::LEDColours(y)) => x@ == y@,
        (Event::Started, Event::Started) => true,
        _ => false,
    }
}

pub open spec fn spec_payload_eq(a: Payload, b: Payload) -> bool {
    match (a, b) {
        (Payload::Command(x), Payload::Command(y)) => x == y,
        (Payload::Event(x), Payload::Event(y)) => spec_event_eq(x, y),
        _ => false,
    }
}

pub open spec fn spec_message_eq(a: Message, b: Message) -> bool {
    a.stamp == b.stamp && spec_payload_eq(a.payload, b.payload)
}

/// A copy of an event, element for element.
pub fn clone_event(event: &Event) -> (r: Event)
    ensures
        spec_event_eq(r, *event),
{
    match event {
        Event::Measurement(m) => Event::Measurement(*m),
        Event::MeasurementFailure => Event::MeasurementFailure,
        Event::SingleTap => Event::SingleTap,
        Event::Devices(devices) => {
            let mut copy: Vec<TPLinkDevice> = Vec::new();
            let mut i: usize = 0;
            while i < devices.len()
                invariant
                    i <= devices@.len(),
                    copy@ == devices@.subrange(0, i as int),
                decreases devices@.len() - i,
            {
                copy.push(TPLinkDevice { name: devices[i].name.clone() });
                proof {
                    assert(copy@ =~= devices@.subrange(0, i + 1));
                }
                i += 1;
            }
            proof {
                assert(copy@ =~= devices@);
            }
            Event::Devices(copy)
        },
        Event::HeaterStarted => Event::HeaterStarted,
        Event::HeaterStopped => Event::HeaterStopped,
        Event::LEDBrightness(b) => Event::LEDBrightness(*b),
        Event::LEDColours(colours) => {
            let mut copy: Vec<(u8, u8, u8)> = Vec::new();
            let mut i: usize = 0;
            while i < colours.len()
                invariant
                    i <= colours@.len(),
                    copy@ == colours@.subrange(0, i as int),
                decreases colours@.len() - i,
            {
                copy.push(colours[i]);
                proof {
                    assert(copy@ =~= colours@.subrange(0, i + 1));
                }
                i += 1;
            }
            proof {
                assert(copy@ =~= colours@);
            }
            Event::LEDColours(copy)
        },
        Event::Started => Event::Started,
    }
}

/// A copy of a payload, element for element.
pub fn clone_payload(payload: &Payload) -> (r: Payload)
    ensures
        spec_payload_eq(r, *payload),
{
    match payload {
        Payload::Command(command) => Payload::Command(*command),
        Payload::Event(event) => Payload::Event(clone_event(event)),
    }
}

/// A copy of a message, element for element.
pub fn clone_message(message: &Message) -> (r: Message)
    ensures
        spec_message_eq(r, *message),
{
    Message { stamp: message.stamp, payload: clone_payload(&message.payload) }
}

impl Event {
    /// The human-readable heading used when an event is listed.
    pub open spec fn spec_title(self) -> Seq<char> {
        match self {
            Event::Measurement(_) => "Measurement event"@,
            Event::MeasurementFailure => "Measurement failure"@,
            Event::SingleTap => "Single tap"@,
            Event::Devices(_) => "Device list"@,
            Event::HeaterStarted => "Heater started"@,
            Event::HeaterStopped => "Heater stopped"@,
            Event::LEDBrightness(_) => "LED brightness"@,
            Event::LEDColours(_) => "LED colours"@,
            Event::Started => "Started"@,
        }
    }

    pub fn title(&self) -> (r: &'static str)
        ensures
            r@ == self.spec_title(),
    {
        match self {
            Event::Measurement(_) => "Measurement event",
            Event::MeasurementFailure => "Measurement failure",
            Event::SingleTap => "Single tap",
            Event::Devices(_) => "Device list",
            Event::HeaterStarted => "Heater started",
            Event::HeaterStopped => "Heater stopped",
            Event::LEDBrightness(_) => "LED brightness",
            Event::LEDColours(_) => "LED colours",
            Event::Started => "Started",
        }
    }

    /// The dotted identifier under which an event's kind is stored.
    pub open spec fn spec_event_type(self) -> Seq<char> {
        match self {
            Event::Measurement(_) => "environment.measurement"@,
            Event::MeasurementFailure => "environment.failure"@,
            Event::SingleTap => "tap.single"@,
            Event::Devices(_) => "tplink.device-list"@,
            Event::HeaterStarted => "tplink.heater-started"@,
            Event::HeaterStopped => "tplink.heater-stopped"@,
            Event::LEDBrightness(_) => "led.brightness"@,
            Event::LEDColours(_) => "led.colours"@,
            Event::Started => "started"@,
        }
    }

    pub fn event_type(&self) -> (r: &'static str)
        ensures
            r@ == self.spec_event_type(),
    {
        match self {
            Event::Measurement(_) => "environment.measurement",
            Event::MeasurementFailure => "environment.failure",
            Event::SingleTap => "tap.single",
            Event::Devices(_) => "tplink.device-list",
            Event::HeaterStarted => "tplink.heater-started",
            Event::HeaterStopped => "tplink.heater-stopped",
            Event::LEDBrightness(_) => "led.brightness",
            Event::LEDColours(_) => "led.colours",
            Event::Started => "started",
        }
    }
}

} // verus!
