use hft_skeleton::data::binance_ws::{
    append_read, handshake_on_read, rotation_due, upgrade_request, HandshakeStep,
    MAX_HANDSHAKE_BYTES, ROTATE_AFTER_SECS,
};

#[test]
fn upgrade_request_layout() {
    let req = upgrade_request("fstream.binance.com", "/ws/btcusdt@bookTicker");
    let expected = "GET /ws/btcusdt@bookTicker HTTP/1.1\r\nHost: fstream.binance.com\r\nUpgrade: websocket\r\nConnection: Upgrade\r\nSec-WebSocket-Key: dGhlIHNhbXBsZSBub25jZQ==\r\nSec-WebSocket-Version: 13\r\n\r\n";
    assert_eq!(req, expected.as_bytes());
}

#[test]
fn handshake_completes_across_reads() {
    let mut hdr = Vec::new();
    assert_eq!(handshake_on_read(&mut hdr, b"HTTP/1.1 101 Switching Protocols\r\n"), HandshakeStep::NeedMore);
    assert_eq!(handshake_on_read(&mut hdr, b"Upgrade: websocket\r\n\r"), HandshakeStep::NeedMore);
    assert_eq!(handshake_on_read(&mut hdr, b"\n"), HandshakeStep::Upgraded);
    assert!(hdr.ends_with(b"\r\n\r\n"));
}

#[test]
fn handshake_rejects_other_statuses() {
    let mut hdr = Vec::new();
    assert_eq!(handshake_on_read(&mut hdr, b"HTTP/1.1 400 Bad Request\r\n\r\n"), HandshakeStep::Rejected);
}

#[test]
fn handshake_eof_leaves_the_header() {
    let mut hdr = b"HTTP/1.1".to_vec();
    assert_eq!(handshake_on_read(&mut hdr, b""), HandshakeStep::Eof);
    assert_eq!(hdr, b"HTTP/1.1".to_vec());
}

#[test]
fn handshake_header_too_large() {
    let mut hdr = Vec::new();
    let chunk = vec![b'a'; MAX_HANDSHAKE_BYTES];
    assert_eq!(handshake_on_read(&mut hdr, &chunk), HandshakeStep::NeedMore);
    assert_eq!(handshake_on_read(&mut hdr, b"b"), HandshakeStep::TooLarge);
}

#[test]
fn append_read_stops_on_empty_read() {
    let mut buf = b"ab".to_vec();
    assert!(append_read(&mut buf, b"cd"));
    assert_eq!(buf, b"abcd".to_vec());
    assert!(!append_read(&mut buf, b""));
    assert_eq!(buf, b"abcd".to_vec());
}

#[test]
fn rotation_after_23h50m() {
    assert_eq!(ROTATE_AFTER_SECS, 85_800);
    assert!(!rotation_due(85_799, 999_999_999));
    assert!(!rotation_due(85_800, 0));
    assert!(rotation_due(85_800, 1));
    assert!(rotation_due(90_000, 0));
}
