use adb_monitor::devices::new_devices;
use adb_monitor::frame::{ProtocolError, BUFFER_SIZE};
use adb_monitor::monitor::{
    Action, AdbMonitor, Event, Failure, RETRY_DELAY_ADB_DAEMON_KO, RETRY_DELAY_ADB_DAEMON_OK,
};

fn strings(v: &[&str]) -> Vec<String> {
    v.iter().map(|s| s.to_string()).collect()
}

#[test]
fn device_lines_keep_only_device_state() {
    let m = AdbMonitor::new();
    let r = m.parse_connected_devices("s1\tdevice\ns2\tunauthorized\n");
    assert_eq!(r, strings(&["s1"]));
}

#[test]
fn device_lines_split_on_any_whitespace() {
    let m = AdbMonitor::new();
    let r = m.parse_connected_devices("a device\r\n  b\t\tdevice extra\nc\nd\toffline\ne\u{3000}device");
    assert_eq!(r, strings(&["a", "b", "e"]));
    assert_eq!(m.parse_connected_devices(""), Vec::<String>::new());
    assert_eq!(m.parse_connected_devices("x\tDevice\n"), Vec::<String>::new());
    assert_eq!(m.parse_connected_devices("device device\n"), strings(&["device"]));
}

#[test]
fn new_device_is_reported_once() {
    let mut m = AdbMonitor::new();
    assert_eq!(m.handle_packet("a\tdevice\n"), strings(&["a"]));
    assert_eq!(m.handle_packet("a\tdevice\nb\tdevice\n"), strings(&["b"]));
}

#[test]
fn repeated_serial_is_reported_once() {
    let mut m = AdbMonitor::new();
    assert_eq!(m.handle_packet("s1\tdevice\ns1\tdevice\n"), strings(&["s1"]));
    assert_eq!(m.handle_packet("s1\tdevice\ns2\tdevice\ns2\tdevice\ns3\tdevice\n"), strings(&["s2", "s3"]));
    assert_eq!(new_devices(&Vec::new(), &strings(&["a", "b", "a"])), strings(&["a", "b"]));
}

#[test]
fn vanished_device_is_not_reported() {
    let mut m = AdbMonitor::new();
    m.handle_packet("a\tdevice\nb\tdevice\n");
    assert_eq!(m.handle_packet("a\tdevice\n"), Vec::<String>::new());
    assert_eq!(m.handle_packet("a\tdevice\nb\tdevice\n"), strings(&["b"]));
}

#[test]
fn differ_keeps_line_order() {
    let prev = strings(&["b"]);
    let cur = strings(&["c", "b", "a"]);
    assert_eq!(new_devices(&prev, &cur), strings(&["c", "a"]));
    assert_eq!(new_devices(&cur, &prev), Vec::<String>::new());
}

#[test]
fn okay_status_is_consumed() {
    let mut m = AdbMonitor::new();
    m.fill_buffer_from(b"OKAYxyz").unwrap();
    assert_eq!(m.consume_okay(), Some(true));
    assert_eq!(m.pending(), b"xyz");
}

#[test]
fn other_status_is_failure() {
    let mut m = AdbMonitor::new();
    m.fill_buffer_from(b"FAIL0004oops").unwrap();
    assert_eq!(m.consume_okay(), Some(false));
    assert_eq!(m.pending(), b"0004oops");
    let mut m = AdbMonitor::new();
    m.fill_buffer_from(b"OKA").unwrap();
    assert_eq!(m.consume_okay(), None);
    assert_eq!(m.pending(), b"OKA");
}

#[test]
fn closed_stream_is_connection_error() {
    let mut m = AdbMonitor::new();
    assert_eq!(m.fill_buffer_from(b""), Err(Failure::Connection));
}

#[test]
fn start_twice_runs_one_loop() {
    let mut m = AdbMonitor::new();
    assert!(!m.is_running());
    assert_eq!(m.monitor(), Some(Action::Connect));
    assert!(m.is_running());
    assert_eq!(m.monitor(), None);
    assert!(m.is_running());
}

#[test]
fn stop_twice_when_stopped_does_nothing() {
    let mut m = AdbMonitor::new();
    assert!(!m.stop_monitor());
    assert!(!m.stop_monitor());
    assert!(!m.is_running());
}

#[test]
fn retry_delays() {
    assert_eq!(AdbMonitor::repair_delay(true), 1000);
    assert_eq!(AdbMonitor::repair_delay(false), 5000);
    assert_eq!(RETRY_DELAY_ADB_DAEMON_OK, 1000);
    assert_eq!(RETRY_DELAY_ADB_DAEMON_KO, 5000);
}

#[test]
fn request_bytes() {
    assert_eq!(AdbMonitor::track_devices_request(), b"0012host:track-devices".to_vec());
}

fn connected_monitor() -> AdbMonitor {
    let mut m = AdbMonitor::new();
    assert_eq!(m.monitor(), Some(Action::Connect));
    assert_eq!(m.step(Event::Done), Action::Send(b"0012host:track-devices".to_vec()));
    assert_eq!(m.step(Event::Done), Action::Read(BUFFER_SIZE));
    m
}

#[test]
fn daemon_sends_one_device_then_closes() {
    let mut m = connected_monitor();
    let a = m.step(Event::Received(b"OKAY000as1\tdevice\n".to_vec()));
    assert_eq!(a, Action::Notify(strings(&["s1"])));
    assert_eq!(m.step(Event::Done), Action::Read(BUFFER_SIZE));
    assert_eq!(m.step(Event::Received(Vec::new())), Action::Recover(Failure::Connection));
    assert_eq!(m.step(Event::Restarted(true)), Action::Sleep(1000));
    assert_eq!(m.step(Event::Done), Action::Connect);
}

#[test]
fn header_longer_than_payload_waits_then_recovers() {
    let mut m = connected_monitor();
    let a = m.step(Event::Received(b"OKAY000ds1\tdevice\n".to_vec()));
    assert_eq!(a, Action::Read(BUFFER_SIZE - 14));
    assert_eq!(m.step(Event::Received(Vec::new())), Action::Recover(Failure::Connection));
}

#[test]
fn frame_split_across_reads() {
    let mut m = connected_monitor();
    assert_eq!(m.step(Event::Received(b"OK".to_vec())), Action::Read(BUFFER_SIZE - 2));
    assert_eq!(m.step(Event::Received(b"AY000a".to_vec())), Action::Read(BUFFER_SIZE - 4));
    let a = m.step(Event::Received(b"s1\tdevice\n".to_vec()));
    assert_eq!(a, Action::Notify(strings(&["s1"])));
    assert_eq!(m.step(Event::Done), Action::Read(BUFFER_SIZE));
    let a = m.step(Event::Received(b"000as1\tdevice\n0000".to_vec()));
    assert_eq!(a, Action::Notify(Vec::new()));
    assert_eq!(m.step(Event::Done), Action::Notify(Vec::new()));
    assert_eq!(m.step(Event::Done), Action::Read(BUFFER_SIZE));
}

#[test]
fn refused_handshake_recovers() {
    let mut m = connected_monitor();
    let a = m.step(Event::Received(b"FAIL0004oops".to_vec()));
    assert_eq!(a, Action::Recover(Failure::Protocol(ProtocolError::Refused)));
    assert_eq!(m.step(Event::Restarted(false)), Action::Sleep(5000));
}

#[test]
fn oversized_frame_recovers() {
    let mut m = connected_monitor();
    let a = m.step(Event::Received(b"OKAY0fff".to_vec()));
    assert_eq!(a, Action::Recover(Failure::Protocol(ProtocolError::PacketTooBig(0xfff))));
}

#[test]
fn connect_failure_recovers() {
    let mut m = AdbMonitor::new();
    m.monitor();
    assert_eq!(m.step(Event::Failed), Action::Recover(Failure::Connection));
}

#[test]
fn stop_takes_effect_at_checkpoint() {
    let mut m = connected_monitor();
    assert_eq!(m.step(Event::Received(b"OKAY000as1\tdevice\n".to_vec())), Action::Notify(strings(&["s1"])));
    assert!(m.stop_monitor());
    assert_eq!(m.step(Event::Done), Action::Halt);
    assert!(!m.is_running());
    assert!(!m.stop_monitor());
    assert_eq!(m.monitor(), Some(Action::Connect));
}

#[test]
fn stop_while_waiting_halts() {
    let mut m = AdbMonitor::new();
    m.monitor();
    m.step(Event::Failed);
    assert!(m.stop_monitor());
    assert_eq!(m.step(Event::Restarted(true)), Action::Sleep(1000));
    assert_eq!(m.step(Event::Done), Action::Halt);
}

#[test]
fn unexpected_event_halts() {
    let mut m = AdbMonitor::new();
    assert_eq!(m.step(Event::Done), Action::Halt);
    let mut m = connected_monitor();
    assert_eq!(m.step(Event::Restarted(true)), Action::Halt);
}
