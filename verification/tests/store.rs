use chrono::{DateTime, Utc};

use glow::measurement::Measurement;
use glow::message::{Command, Event, Message, Payload};
use glow::store::{can_run_heater, store_events, HubStore};

fn millis(stamp: &str) -> i64 {
    stamp.parse::<DateTime<Utc>>().unwrap().timestamp_millis()
}

fn now() -> i64 {
    millis("2012-12-12T12:12:00Z")
}

#[test]
fn dequeue_events_removes_events() {
    let mut store = HubStore::new();

    store.queue_command(Command::Stop);
    store.queue_command(Command::Stop);

    let commands1 = store.dequeue_commands();
    let commands2 = store.dequeue_commands();

    assert_eq!(commands1.len(), 2);
    assert_eq!(commands2.len(), 0);
}

#[test]
fn test_get_measurements_since() {
    let mut store = HubStore::new();

    let rows = vec![
        ("2012-12-12T11:00:00Z", 10_000_000i64),
        ("2012-12-12T11:10:00Z", 11_000_000),
        ("2012-12-12T11:20:00Z", 12_000_000),
        ("2012-12-12T11:30:00Z", 13_000_000),
        ("2012-12-12T11:50:00Z", 14_000_000),
        ("2012-12-12T11:55:00Z", 15_000_000),
    ];
    for (stamp, temp) in rows.iter() {
        store.add_measurement(millis(stamp), &Measurement::new(*temp, 10_000_000));
    }

    // thirty minutes, in milliseconds
    let measurements = store.get_measurements_since(now(), 30 * 60 * 1_000);

    assert_eq!(measurements.len(), 2);
    assert_eq!(
        measurements,
        vec![
            ("2012-12-12T11:55:00Z", 15_000_000i64),
            ("2012-12-12T11:50:00Z", 14_000_000),
        ]
        .iter()
        .map(|(stamp, temp)| {
            Message::raw(
                millis(stamp),
                Payload::Event(Event::Measurement(Measurement::new(*temp, 10_000_000))),
            )
        })
        .collect::<Vec<_>>()
    );
}

#[test]
fn event_log_keeps_stamp_order() {
    let mut store = HubStore::new();

    store.add_event(Message::raw(300, Payload::Event(Event::Started)));
    store.add_event(Message::raw(100, Payload::Event(Event::SingleTap)));
    store.add_event(Message::raw(200, Payload::Event(Event::HeaterStarted)));

    let latest = store.get_latest_events(2);
    assert_eq!(latest.len(), 2);
    assert_eq!(latest[0], Message::raw(300, Payload::Event(Event::Started)));
    assert_eq!(latest[1], Message::raw(200, Payload::Event(Event::HeaterStarted)));

    let newest = store.get_latest_event().unwrap();
    assert_eq!(newest, Message::raw(300, Payload::Event(Event::Started)));
}

#[test]
fn empty_store_has_no_latest_rows() {
    let store = HubStore::new();

    assert!(store.get_latest_event().is_none());
    assert!(store.get_latest_measurement().is_none());
    assert_eq!(store.get_latest_events(5).len(), 0);
}

#[test]
fn store_events_logs_measurements_and_hands_out_commands() {
    let mut store = HubStore::new();
    store.queue_command(Command::SetBrightness(500));

    let measurement = Measurement::new(21_500_000, 40_000_000);
    let batch = vec![
        Message::raw(1_000, Payload::Event(Event::Measurement(measurement))),
        Message::raw(2_000, Payload::Event(Event::SingleTap)),
    ];

    let commands = store_events(&mut store, batch);

    assert_eq!(commands.len(), 1);
    assert_eq!(
        *commands[0].payload(),
        Payload::Command(Command::SetBrightness(500))
    );

    let newest = store.get_latest_event().unwrap();
    assert_eq!(*newest.payload(), Payload::Event(Event::SingleTap));

    let series = store.get_latest_measurement().unwrap();
    assert_eq!(series.stamp(), 1_000);
    assert_eq!(
        *series.payload(),
        Payload::Event(Event::Measurement(measurement))
    );

    // nothing left for a second cycle
    assert_eq!(store_events(&mut store, vec![]).len(), 0);
}

#[test]
fn can_run_heater_needs_a_quiet_spell() {
    assert!(can_run_heater(now(), None));
    assert!(can_run_heater(now(), Some(now() - 180_000)));
    assert!(!can_run_heater(now(), Some(now() - 179_999)));
    assert!(!can_run_heater(now(), Some(now())));
}
