use glow::measurement::Measurement;
use glow::message::{Command, Event};
use glow::sensor::{
    handle_measurement, read_measurement, sleep_seconds, EnvironmentSensor, Sensor, SensorError,
};

struct MockSensor {
    values: Vec<Result<Measurement, SensorError>>,
}

impl MockSensor {
    fn new(values: Vec<Result<Measurement, SensorError>>) -> Self {
        Self { values }
    }
}

impl Sensor for MockSensor {
    fn read(&mut self) -> Result<Measurement, SensorError> {
        self.values.remove(0)
    }

    fn pause(&mut self, _seconds: u64) {}
}

fn sensor_measurement() -> Measurement {
    // 1.1 degrees and 2.2 percent, in millionths
    Measurement::new(1_100_000, 2_200_000)
}

#[test]
fn read_a_measurement() {
    let mut sensor = MockSensor::new(vec![Ok(sensor_measurement())]);
    let read_measurement = read_measurement(&mut sensor, 0).unwrap();

    assert_eq!(read_measurement, sensor_measurement());
}

#[test]
fn read_a_measurement_after_one_failure() {
    let mut sensor = MockSensor::new(vec![Err(SensorError::WriteError), Ok(sensor_measurement())]);
    let read_measurement = read_measurement(&mut sensor, 0).unwrap();

    assert_eq!(read_measurement, sensor_measurement());
}

#[test]
fn read_a_measurement_after_four_failures() {
    let mut sensor = MockSensor::new(vec![
        Err(SensorError::WriteError),
        Err(SensorError::WriteError),
        Err(SensorError::WriteError),
        Err(SensorError::WriteError),
        Ok(sensor_measurement()),
    ]);
    let read_measurement = read_measurement(&mut sensor, 0).unwrap();

    assert_eq!(read_measurement, sensor_measurement());
}

#[test]
fn read_a_measurement_until_backoff_exceeded() {
    let mut values = Vec::new();
    for _ in 0..16 {
        values.push(Err(SensorError::WriteError));
    }
    values.push(Ok(sensor_measurement()));
    let mut sensor = MockSensor::new(values);
    let read_measurement = read_measurement(&mut sensor, 0);

    assert!(read_measurement.is_none());
}

#[test]
fn handle_measurement_stop() {
    let mut previous_data = None;
    let mut num_skipped = 0;

    let message = handle_measurement(None, &mut previous_data, &mut num_skipped).unwrap();

    assert_eq!(message.into_command(), Some(Command::Stop));
}

#[test]
fn handle_measurement_some() {
    let mut previous_data = None;
    let mut num_skipped = 0;

    let message =
        handle_measurement(Some(sensor_measurement()), &mut previous_data, &mut num_skipped)
            .unwrap();

    assert_eq!(
        message.into_event(),
        Some(Event::Measurement(sensor_measurement()))
    );
}

#[test]
fn handle_measurement_skip() {
    let mut previous_data = Some(sensor_measurement());
    let mut num_skipped = 0;

    let message =
        handle_measurement(Some(sensor_measurement()), &mut previous_data, &mut num_skipped);

    assert!(message.is_none());
}

#[test]
fn unchanged_readings_emit_a_heartbeat() {
    let mut sensor_state = EnvironmentSensor::new();
    let reading = sensor_measurement();

    // the first reading is fresh and goes out
    assert!(sensor_state.step(Some(reading)).is_some());

    // the next ten identical readings are suppressed
    for _ in 0..10 {
        assert!(sensor_state.step(Some(reading)).is_none());
    }

    // the repetition after that — the (max_skip + 1)-th — is emitted even
    // though nothing changed
    let heartbeat = sensor_state.step(Some(reading)).unwrap();
    assert_eq!(heartbeat.into_event(), Some(Event::Measurement(reading)));
    assert_eq!(sensor_state.num_skipped, 0);
}

struct PauseRecordingSensor {
    values: Vec<Result<Measurement, SensorError>>,
    pauses: Vec<u64>,
}

impl Sensor for PauseRecordingSensor {
    fn read(&mut self) -> Result<Measurement, SensorError> {
        self.values.remove(0)
    }

    fn pause(&mut self, seconds: u64) {
        self.pauses.push(seconds);
    }
}

#[test]
fn no_pause_within_the_error_limit() {
    let mut sensor = PauseRecordingSensor {
        values: vec![
            Err(SensorError::ReadError),
            Err(SensorError::ReadError),
            Err(SensorError::ReadError),
            Ok(sensor_measurement()),
        ],
        pauses: vec![],
    };

    assert!(read_measurement(&mut sensor, 30).is_some());
    assert_eq!(sensor.pauses, Vec::<u64>::new());
}

#[test]
fn pauses_grow_with_each_backoff() {
    let mut values = Vec::new();
    for _ in 0..8 {
        values.push(Err(SensorError::ReadError));
    }
    values.push(Ok(sensor_measurement()));
    let mut sensor = PauseRecordingSensor { values, pauses: vec![] };

    assert!(read_measurement(&mut sensor, 30).is_some());
    assert_eq!(sensor.pauses, vec![30, 60]);
}

#[test]
fn sleep_grows_with_suppressed_readings() {
    assert_eq!(sleep_seconds(0), 30);
    assert_eq!(sleep_seconds(1), 45);
    assert_eq!(sleep_seconds(2), 60);
    assert_eq!(sleep_seconds(10), 180);
}

#[test]
fn changed_reading_resets_the_skip_counter() {
    let mut sensor_state = EnvironmentSensor::new();
    assert!(sensor_state.step(Some(Measurement::new(20_000_000, 50_000_000))).is_some());
    assert!(sensor_state.step(Some(Measurement::new(20_000_500, 50_000_000))).is_none());
    assert_eq!(sensor_state.num_skipped, 1);

    // a change on temperature beyond the tolerance goes out at once
    assert!(sensor_state.step(Some(Measurement::new(20_002_000, 50_000_000))).is_some());
    assert_eq!(sensor_state.num_skipped, 0);
}
