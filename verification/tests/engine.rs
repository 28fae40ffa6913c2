use std::time::Instant;

use mycobot_rs::Command;
use mycobot_rs::Error;
use mycobot_rs::MockSerial;
use mycobot_rs::MyCobot;
use mycobot_rs::Packet;

#[test]
fn test_power_on() {
    let mock = MockSerial::new();
    let mut robot = MyCobot::new(mock);

    robot.power_on().unwrap();

    let written = robot.port.pop_write();
    assert_eq!(written, vec![0xFE, 0xFE, 0x02, 0x10, 0xFA]);
}

#[test]
fn power_off_writes_its_frame() {
    let mock = MockSerial::new();
    let mut robot = MyCobot::new(mock);
    robot.power_off().unwrap();
    assert_eq!(robot.port.pop_write(), vec![0xFE, 0xFE, 0x02, 0x11, 0xFA]);
}

#[test]
fn set_led_color_writes_its_frame() {
    let mock = MockSerial::new();
    let mut robot = MyCobot::new(mock);
    robot.set_led_color(0x10, 0x20, 0x30).unwrap();
    assert_eq!(
        robot.port.pop_write(),
        vec![0xFE, 0xFE, 0x05, 0x6A, 0x10, 0x20, 0x30, 0xFA]
    );
}

#[test]
fn set_debug_mode_flips_the_flag() {
    let mut robot = MyCobot::new(MockSerial::new());
    assert!(!robot.debug_mode);
    robot.set_debug_mode(true);
    assert!(robot.debug_mode);
    robot.set_debug_mode(false);
    assert!(!robot.debug_mode);
}

#[test]
fn is_powered_on_reads_matching_response() {
    let mut mock = MockSerial::new();
    mock.push_read(&Packet::new(Command::IsPoweredOn, vec![1]).to_bytes());
    let mut robot = MyCobot::new(mock);
    assert_eq!(robot.is_powered_on().unwrap(), true);
    // The request frame went out.
    assert_eq!(robot.port.pop_write(), vec![0xFE, 0xFE, 0x02, 0x12, 0xFA]);
}

#[test]
fn is_powered_on_reports_off() {
    let mut mock = MockSerial::new();
    mock.push_read(&Packet::new(Command::IsPoweredOn, vec![0]).to_bytes());
    let mut robot = MyCobot::new(mock);
    assert_eq!(robot.is_powered_on().unwrap(), false);
}

#[test]
fn is_powered_on_rejects_wrong_payload_shape() {
    let mut mock = MockSerial::new();
    mock.push_read(&Packet::new(Command::IsPoweredOn, vec![1, 2]).to_bytes());
    let mut robot = MyCobot::new(mock);
    assert!(matches!(robot.is_powered_on(), Err(Error::Protocol(_))));
}

#[test]
fn mismatched_frame_is_skipped() {
    // A frame for a different command arrives first; the engine removes it
    // whole and returns the matching frame's payload.
    let mut mock = MockSerial::new();
    mock.push_read(&Packet::new(Command::GetCoords, vec![7, 7]).to_bytes());
    mock.push_read(&Packet::new(Command::IsPoweredOn, vec![1]).to_bytes());
    let mut robot = MyCobot::new(mock);
    assert_eq!(robot.is_powered_on().unwrap(), true);
}

#[test]
fn engine_resyncs_over_leading_noise() {
    let mut mock = MockSerial::new();
    mock.push_read(&[0x01, 0x02]);
    mock.push_read(&Packet::new(Command::GetAngles, vec![9, 8]).to_bytes());
    let mut robot = MyCobot::new(mock);
    let payload = robot.request(Command::GetAngles, vec![], 500).unwrap();
    assert_eq!(payload, vec![9, 8]);
}

#[test]
fn request_times_out_when_no_bytes_arrive() {
    let mut robot = MyCobot::new(MockSerial::new());
    let start = Instant::now();
    let r = robot.request(Command::IsPoweredOn, vec![], 80);
    let elapsed = start.elapsed();
    assert!(matches!(r, Err(Error::Timeout)));
    assert!(elapsed.as_millis() >= 80, "returned after {:?}", elapsed);
    assert!(elapsed.as_millis() < 5000, "returned only after {:?}", elapsed);
}

#[test]
fn request_rejects_overlong_payload_before_any_transfer() {
    let mut robot = MyCobot::new(MockSerial::new());
    let r = robot.request(Command::WriteAngles, vec![0; 254], 100);
    assert!(matches!(r, Err(Error::InvalidParameter(_))));
    // Nothing was written.
    assert_eq!(robot.port.pop_write(), Vec::<u8>::new());
}

#[test]
fn request_accepts_longest_allowed_payload() {
    let mut mock = MockSerial::new();
    mock.push_read(&Packet::new(Command::SetBasicOut, vec![0xAB; 3]).to_bytes());
    let mut robot = MyCobot::new(mock);
    let r = robot.request(Command::SetBasicOut, vec![0x55; 253], 500).unwrap();
    assert_eq!(r, vec![0xAB; 3]);
    let written = robot.port.pop_write();
    assert_eq!(written.len(), 258);
    assert_eq!(written[2], 0xFF);
}

struct FailingPort;

impl mycobot_rs::SerialPort for FailingPort {
    fn read_byte(&mut self) -> mycobot_rs::io::ReadOutcome {
        mycobot_rs::io::ReadOutcome::Failed
    }

    fn write_all(&mut self, _data: &[u8]) -> bool {
        true
    }

    fn flush(&mut self) -> bool {
        true
    }
}

struct DeafPort;

impl mycobot_rs::SerialPort for DeafPort {
    fn read_byte(&mut self) -> mycobot_rs::io::ReadOutcome {
        mycobot_rs::io::ReadOutcome::Pending
    }

    fn write_all(&mut self, _data: &[u8]) -> bool {
        false
    }

    fn flush(&mut self) -> bool {
        false
    }
}

#[test]
fn read_failure_surfaces_as_io_error() {
    let mut robot = MyCobot::new(FailingPort);
    let r = robot.request(Command::IsPoweredOn, vec![], 100);
    assert!(matches!(r, Err(Error::Io)));
}

#[test]
fn write_failure_surfaces_as_io_error() {
    let mut robot = MyCobot::new(DeafPort);
    let r = robot.power_on();
    assert!(matches!(r, Err(Error::Io)));
}
