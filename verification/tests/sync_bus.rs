use glow::bus::{stopper_finish, stopper_step, StopperState, STOP_GRACE_MILLIS};
use glow::leds::{colour_blue, colour_orange, Colour, ColourRange, LEDHandler, LEDs};
use glow::message::{Command, Event, Message, Payload};
use glow::store::{store_events, HubStore};
use glow::sync::{poll_interval_seconds, SendState, WebHandler};
use glow::tplink::{devices_message, find_device_by_alias, heater_alias, plug_action, PlugAction};
use glow::message::TPLinkDevice;
use glow::vibration::VibrationSensor;

#[test]
fn web_handler_batches_only_events() {
    let mut handler = WebHandler::new("http://hub/api/events".to_string(), "token".to_string());

    handler.observe(Message::raw(1, Payload::Event(Event::SingleTap)));
    handler.observe(Message::raw(2, Payload::Command(Command::RunParty)));
    handler.observe(Message::raw(3, Payload::Event(Event::Started)));

    let batch = handler.take_batch();
    assert_eq!(batch.len(), 2);
    assert_eq!(*batch[0].payload(), Payload::Event(Event::SingleTap));
    assert_eq!(*batch[1].payload(), Payload::Event(Event::Started));

    // the batch is drained by the cycle
    assert_eq!(handler.take_batch().len(), 0);
}

#[test]
fn send_budget_allows_five_attempts() {
    let mut state = SendState::start();

    // four failures still leave budget, the fifth ends the cycle
    assert!(state.on_failure());
    assert!(state.on_failure());
    assert!(state.on_failure());
    assert!(state.on_failure());
    assert!(!state.on_failure());
}

#[test]
fn poll_interval_backs_off_when_idle() {
    assert_eq!(poll_interval_seconds(true), 5);
    assert_eq!(poll_interval_seconds(false), 1);
}

#[test]
fn stopper_drains_on_stop_and_then_terminates() {
    let mut state = StopperState::Watching;

    state = stopper_step(state, &Message::raw(1, Payload::Event(Event::Started)));
    assert_eq!(state, StopperState::Watching);

    state = stopper_step(state, &Message::raw(2, Payload::Command(Command::RunParty)));
    assert_eq!(state, StopperState::Watching);

    state = stopper_step(state, &Message::raw(3, Payload::Command(Command::Stop)));
    assert_eq!(state, StopperState::Draining);

    // more traffic during the grace period changes nothing
    state = stopper_step(state, &Message::raw(4, Payload::Event(Event::SingleTap)));
    assert_eq!(state, StopperState::Draining);

    assert!(STOP_GRACE_MILLIS > 0);
    state = stopper_finish(state);
    assert_eq!(state, StopperState::Terminated);
}

#[test]
fn vibration_sensor_debounces() {
    let mut sensor = VibrationSensor::new(1_000);

    // still inside the bounce window
    assert!(!sensor.on_interrupt(1_200));
    assert!(!sensor.on_interrupt(1_300));

    // past the window: a tap, and the window restarts
    assert!(sensor.on_interrupt(1_400));
    assert!(!sensor.on_interrupt(1_600));
    assert!(sensor.on_interrupt(1_800));
}

#[test]
fn plug_actions_cover_the_plug_commands() {
    assert_eq!(plug_action(&Command::ListDevices), Some(PlugAction::Discover));
    assert_eq!(plug_action(&Command::RunHeater), Some(PlugAction::RunHeater));
    assert_eq!(plug_action(&Command::StopHeater), Some(PlugAction::StopHeater));
    assert_eq!(plug_action(&Command::Stop), None);
    assert_eq!(plug_action(&Command::UpdateLEDs), None);
}

#[test]
fn finding_the_heater_by_alias() {
    let devices = vec![
        TPLinkDevice { name: "Lamp".to_string() },
        TPLinkDevice { name: "Heater".to_string() },
    ];

    assert_eq!(find_device_by_alias(&devices, &heater_alias()), Some(1));
    assert_eq!(find_device_by_alias(&devices, &"Fan".to_string()), None);

    let message = devices_message(devices);
    match message.payload() {
        Payload::Event(Event::Devices(listed)) => assert_eq!(listed.len(), 2),
        other => panic!("unexpected payload: {:?}", other),
    }
}

struct RecordingLEDs {
    shows: Vec<(Vec<Colour>, u16)>,
}

impl LEDs for RecordingLEDs {
    fn show(&mut self, colours: &Vec<Colour>, brightness: u16) -> Result<(), String> {
        self.shows.push((colours.clone(), brightness));
        Ok(())
    }

    fn party(&mut self) -> Result<(), String> {
        Ok(())
    }
}

#[test]
fn queued_brightness_reaches_the_led_handler() {
    // the dashboard queues a brightness change on the hub
    let mut store = HubStore::new();
    store.queue_command(Command::SetBrightness(500));

    // the edge client's next POST carries no events but returns the command
    let commands = store_events(&mut store, vec![]);
    assert_eq!(commands.len(), 1);

    // the client republishes it on the bus, where the LED handler reacts
    let range = ColourRange::new(14_000_000, 4_000_000, &[colour_blue(), colour_orange()]).unwrap();
    let mut handler = LEDHandler::new(RecordingLEDs { shows: vec![] }, range);

    let out = handler.handle(&commands[0]);
    assert_eq!(handler.brightness, 500);
    assert_eq!(out.len(), 2);
    assert_eq!(*out[0].payload(), Payload::Command(Command::UpdateLEDs));
    assert_eq!(*out[1].payload(), Payload::Event(Event::LEDBrightness(500)));

    // and the re-render it asked for reports the strip's colours, which
    // are still black: no measurement has arrived yet
    let rendered = handler.handle(&out[0]);
    assert_eq!(rendered.len(), 1);
    assert_eq!(
        *rendered[0].payload(),
        Payload::Event(Event::LEDColours(vec![(0, 0, 0); 8]))
    );
}

#[test]
fn measurement_changes_redraw_the_strip() {
    let range = ColourRange::new(14_000_000, 4_000_000, &[colour_blue(), colour_orange()]).unwrap();
    let mut handler = LEDHandler::new(RecordingLEDs { shows: vec![] }, range);

    // a mid-range temperature changes the colours: an update is requested
    let out = handler.handle(&Message::raw(
        1,
        Payload::Event(Event::Measurement(glow::measurement::Measurement::new(
            16_000_000, 40_000_000,
        ))),
    ));
    assert_eq!(out.len(), 1);
    assert_eq!(*out[0].payload(), Payload::Command(Command::UpdateLEDs));
    assert_eq!(handler.colours[3], colour_blue());
    assert_eq!(handler.colours[4], colour_orange());

    // the same temperature again changes nothing
    let again = handler.handle(&Message::raw(
        2,
        Payload::Event(Event::Measurement(glow::measurement::Measurement::new(
            16_000_000, 40_000_000,
        ))),
    ));
    assert_eq!(again.len(), 0);
}

#[test]
fn tap_steps_brightness_and_asks_for_a_party() {
    let range = ColourRange::new(14_000_000, 4_000_000, &[colour_blue(), colour_orange()]).unwrap();
    let mut handler = LEDHandler::new(RecordingLEDs { shows: vec![] }, range);

    // default brightness is dim; a tap steps it to bright
    assert_eq!(handler.brightness, 10);
    let out = handler.handle(&Message::raw(1, Payload::Event(Event::SingleTap)));
    assert_eq!(handler.brightness, 500);
    assert_eq!(out.len(), 2);
    assert_eq!(*out[0].payload(), Payload::Command(Command::RunParty));
    assert_eq!(*out[1].payload(), Payload::Command(Command::UpdateLEDs));
}
