use grapplefrcdriver::bridge::{
    decode_bridged, effective_ws_port, encode_bridged, encode_tcp_record, BridgeStreamParser,
    BridgedFrame, TCP_BRIDGE_PORT, WS_DEFAULT_PORT,
};
use grapplefrcdriver::errors::ErrorKind;

#[test]
fn test_bridged_frame_wire_form() {
    let f = BridgedFrame { id: 0x5678, timestamp: 42, data: vec![0x01, 0x02, 0x03] };
    let bytes = encode_bridged(&f);
    assert_eq!(
        bytes,
        vec![0x00, 0x00, 0x56, 0x78, 0x00, 0x00, 0x00, 0x2A, 3, 0x01, 0x02, 0x03]
    );
    let back = decode_bridged(&bytes).unwrap();
    assert_eq!(back.id, 0x5678);
    assert_eq!(back.timestamp, 42);
    assert_eq!(back.data, vec![0x01, 0x02, 0x03]);
}

#[test]
fn test_tcp_record_has_length_prefix() {
    let f = BridgedFrame { id: 0x5678, timestamp: 42, data: vec![0x01, 0x02, 0x03] };
    let record = encode_tcp_record(&f);
    // Twelve body bytes behind a little-endian length.
    assert_eq!(record[0], 12);
    assert_eq!(record[1], 0);
    assert_eq!(&record[2..], &encode_bridged(&f)[..]);
}

#[test]
fn test_bridge_client_to_stream() {
    // A client writes a length-prefixed record; the parser yields the
    // frame whose payload the bridge would hand to the hardware layer.
    let frame = BridgedFrame { id: 0x1234, timestamp: 0, data: vec![0xDE, 0xAD] };
    let mut parser = BridgeStreamParser::new();
    assert!(parser.next_frame().is_none());
    let record = encode_tcp_record(&frame);
    // Bytes may trickle in: feed the record in two pieces.
    parser.push_bytes(&record[0..5].to_vec());
    assert!(parser.next_frame().is_none());
    parser.push_bytes(&record[5..].to_vec());
    let got = parser.next_frame().unwrap().unwrap();
    assert_eq!(got.id, 0x1234);
    assert_eq!(got.timestamp, 0);
    assert_eq!(got.data, vec![0xDE, 0xAD]);
    // The buffer keeps nothing once the record is consumed.
    assert!(parser.next_frame().is_none());
}

#[test]
fn test_bridge_two_records_back_to_back() {
    let a = BridgedFrame { id: 1, timestamp: 10, data: vec![0xAA] };
    let b = BridgedFrame { id: 2, timestamp: 20, data: vec![0xBB, 0xCC] };
    let mut bytes = encode_tcp_record(&a);
    bytes.extend_from_slice(&encode_tcp_record(&b));
    let mut parser = BridgeStreamParser::new();
    parser.push_bytes(&bytes);
    let got_a = parser.next_frame().unwrap().unwrap();
    assert_eq!(got_a.id, 1);
    assert_eq!(got_a.data, vec![0xAA]);
    let got_b = parser.next_frame().unwrap().unwrap();
    assert_eq!(got_b.id, 2);
    assert_eq!(got_b.data, vec![0xBB, 0xCC]);
    assert!(parser.next_frame().is_none());
}

#[test]
fn test_bridge_bad_record_is_parse_error() {
    // A record too short to hold a bridged frame is fatal.
    let mut parser = BridgeStreamParser::new();
    parser.push_bytes(&vec![3, 0, 0xAA, 0xBB, 0xCC]);
    let e = parser.next_frame().unwrap().unwrap_err();
    assert_eq!(e.kind, ErrorKind::ParseError);
    assert_eq!(e.to_error_code(), 0x02);
}

#[test]
fn test_ws_port_selection() {
    assert_eq!(effective_ws_port(0), WS_DEFAULT_PORT);
    assert_eq!(effective_ws_port(-1), 7171);
    assert_eq!(effective_ws_port(8080), 8080);
    assert_eq!(TCP_BRIDGE_PORT, 8006);
}
