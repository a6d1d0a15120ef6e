use glow::legacy;
use glow::measurement::Measurement;
use glow::message::{clone_message, Command, Event, Message, Payload, TPLinkDevice};

#[test]
fn v2_new_environment_event() {
    let message = Message::new_event(Event::Measurement(Measurement::new(12_120_000, 13_130_000)));

    assert_eq!(
        *message.payload(),
        Payload::Event(Event::Measurement(Measurement::new(12_120_000, 13_130_000)))
    );
}

#[test]
fn v2_new_event_has_recent_timestamp() {
    let message = Message::new_event(Event::SingleTap);

    let diff = chrono::Utc::now().timestamp_millis() - message.stamp();
    assert!(0 <= diff && diff < 1_000);
}

#[test]
fn raw_message_keeps_its_stamp() {
    let message = Message::raw(1_234, Payload::Command(Command::Stop));

    assert_eq!(message.stamp(), 1_234);
    assert_eq!(message.into_command(), Some(Command::Stop));
}

#[test]
fn into_event_and_into_command_split_payloads() {
    let event = Message::new_event(Event::Started);
    let command = Message::new_command(Command::RunParty);

    assert_eq!(event.clone().into_command(), None);
    assert_eq!(event.into_event(), Some(Event::Started));
    assert_eq!(command.clone().into_event(), None);
    assert_eq!(command.into_command(), Some(Command::RunParty));
}

#[test]
fn event_titles_and_types() {
    assert_eq!(Event::SingleTap.title(), "Single tap");
    assert_eq!(Event::SingleTap.event_type(), "tap.single");
    assert_eq!(
        Event::Measurement(Measurement::new(0, 0)).event_type(),
        "environment.measurement"
    );
    assert_eq!(Event::LEDColours(vec![(1, 2, 3)]).event_type(), "led.colours");
    assert_eq!(Event::Started.title(), "Started");
}

#[test]
fn cloned_messages_compare_equal() {
    let message = Message::raw(
        77,
        Payload::Event(Event::Devices(vec![TPLinkDevice { name: "Heater".to_string() }])),
    );

    let copy = clone_message(&message);
    assert_eq!(copy, message);
}

#[test]
fn legacy_event_types() {
    assert_eq!(legacy::TapEvent::SingleTap.event_type(), "single-tap");
    assert_eq!(legacy::TPLinkEvent::ListDevices.event_type(), "list-devices");
    assert_eq!(legacy::TPLinkEvent::RunHeater.event_type(), "run-heater");
    assert_eq!(
        legacy::TPLinkEvent::DeviceList(vec![]).event_type(),
        "device-list"
    );
}
