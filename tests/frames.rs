use adb_monitor::buffer::ByteBuffer;
use adb_monitor::frame::{ProtocolError, BUFFER_SIZE};
use adb_monitor::monitor::AdbMonitor;

fn buffer_with(bytes: &[u8]) -> ByteBuffer {
    let mut buf = ByteBuffer::new(BUFFER_SIZE);
    buf.read_from(bytes);
    buf
}

#[test]
fn frame_parses_payload_and_consumes_eight_bytes() {
    let mut buf = buffer_with(b"0004abcd");
    let r = AdbMonitor::read_packet(&mut buf);
    assert_eq!(r, Ok(Some("abcd".to_string())));
    assert!(buf.peek().is_empty());
}

#[test]
fn frame_leaves_following_bytes() {
    let mut buf = buffer_with(b"0004abcd0002");
    let r = AdbMonitor::read_packet(&mut buf);
    assert_eq!(r, Ok(Some("abcd".to_string())));
    assert_eq!(buf.peek(), b"0002");
}

#[test]
fn undersized_header_is_incomplete() {
    let mut buf = buffer_with(b"000");
    assert_eq!(AdbMonitor::read_packet(&mut buf), Ok(None));
    assert_eq!(buf.peek(), b"000");
}

#[test]
fn short_payload_is_incomplete() {
    let mut buf = buffer_with(b"0004abc");
    assert_eq!(AdbMonitor::read_packet(&mut buf), Ok(None));
    assert_eq!(buf.peek(), b"0004abc");
}

#[test]
fn oversized_header_is_fatal() {
    let mut buf = buffer_with(b"0401");
    assert_eq!(AdbMonitor::read_packet(&mut buf), Err(ProtocolError::PacketTooBig(0x401)));
    let mut buf = buffer_with(b"ffffabcdefgh");
    assert_eq!(AdbMonitor::read_packet(&mut buf), Err(ProtocolError::PacketTooBig(0xffff)));
    assert_eq!(buf.peek(), b"ffffabcdefgh");
}

#[test]
fn largest_declared_length_waits_for_data() {
    assert_eq!(AdbMonitor::available_packet_length(b"0400"), Ok(None));
}

#[test]
fn available_length_counts_header() {
    assert_eq!(AdbMonitor::available_packet_length(b"0004abcd"), Ok(Some(8)));
    assert_eq!(AdbMonitor::available_packet_length(b"0000"), Ok(Some(4)));
    assert_eq!(AdbMonitor::available_packet_length(b"0004ab"), Ok(None));
    assert_eq!(AdbMonitor::available_packet_length(b""), Ok(None));
}

#[test]
fn non_hex_header_is_fatal() {
    let mut buf = buffer_with(b"00g1abcd");
    assert_eq!(AdbMonitor::read_packet(&mut buf), Err(ProtocolError::MalformedLength));
    assert_eq!(AdbMonitor::parse_length(b"+abc"), Err(ProtocolError::MalformedLength));
    assert_eq!(AdbMonitor::parse_length(b" 12 "), Err(ProtocolError::MalformedLength));
}

#[test]
fn hex_header_values() {
    assert_eq!(AdbMonitor::parse_length(b"0012"), Ok(18));
    assert_eq!(AdbMonitor::parse_length(b"00AF"), Ok(0xaf));
    assert_eq!(AdbMonitor::parse_length(b"00af"), Ok(0xaf));
    assert_eq!(AdbMonitor::parse_length(b"ffff"), Ok(65535));
    assert_eq!(AdbMonitor::parse_length(b"1000"), Ok(4096));
}

#[test]
fn invalid_utf8_payload_is_fatal() {
    let mut buf = buffer_with(b"0002\xff\xfe");
    assert_eq!(AdbMonitor::read_packet(&mut buf), Err(ProtocolError::NotUtf8));
    assert_eq!(buf.peek(), b"0002\xff\xfe");
}

#[test]
fn utf8_payload_is_decoded() {
    assert_eq!(AdbMonitor::binary_to_string(b"h\xc3\xa9"), Ok("h\u{e9}".to_string()));
    assert_eq!(AdbMonitor::binary_to_string(b"\xc3"), Err(ProtocolError::NotUtf8));
    let mut buf = buffer_with(b"0003h\xc3\xa9");
    assert_eq!(AdbMonitor::read_packet(&mut buf), Ok(Some("h\u{e9}".to_string())));
}

#[test]
fn consume_then_append_keeps_order() {
    let mut buf = ByteBuffer::new(8);
    assert!(buf.read_from(&[1, 2, 3, 4, 5]));
    buf.consume(2);
    assert!(buf.read_from(&[9]));
    assert_eq!(buf.peek(), &[3, 4, 5, 9]);
}

#[test]
fn empty_read_reports_nothing_added() {
    let mut buf = ByteBuffer::new(4);
    assert!(!buf.read_from(&[]));
    assert!(buf.read_from(&[1, 2, 3, 4]));
    assert_eq!(buf.free(), 0);
    buf.consume(4);
    assert!(buf.peek().is_empty());
    assert_eq!(buf.free(), 4);
}
