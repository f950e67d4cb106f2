use grapplefrcdriver::driver::{GrappleCanDriver, RequestState, RequestTick};
use grapplefrcdriver::errors::ErrorKind;
use grapplefrcdriver::ids::encode_id;
use grapplefrcdriver::lasercan::setter_reply;
use grapplefrcdriver::messages::{
    encode_payload, AckStatus, GrappleDeviceMessage, LaserCanMessage, LaserCanRangingMode, Request,
};

fn set_range_request() -> GrappleDeviceMessage {
    GrappleDeviceMessage::DistanceSensor(LaserCanMessage::SetRange(Request::Request(
        LaserCanRangingMode::Long,
    )))
}

fn set_range_ack() -> GrappleDeviceMessage {
    GrappleDeviceMessage::DistanceSensor(LaserCanMessage::SetRange(Request::Ack(
        AckStatus::Accepted,
    )))
}

#[test]
fn test_single_frame_request_reply() {
    // Driver for device id 0x05; the scripted reply arrives 10 ms in,
    // under the request's identifier with the ack flag set, carrying a
    // one-byte acceptance payload.
    let mut driver = GrappleCanDriver::new(0x05, 6);
    let msg = set_range_request();
    let frames = driver.send(&msg).unwrap();
    assert_eq!(frames.len(), 1);
    let mut state = RequestState::new(driver.reply_id(&msg), 0, 200, 0);
    assert_eq!(state.on_tick(5), RequestTick::Wait);
    // Scripted reply frame.
    let reply_raw = encode_id(driver.reply_id(&msg));
    let reply_payload = encode_payload(&set_range_ack());
    assert_eq!(reply_payload, vec![0x00]);
    let received = driver.receive_frame(10, reply_raw, &reply_payload).unwrap();
    let reply = state.on_message(received.0, &received.1).unwrap();
    assert!(setter_reply(&reply).is_ok());
}

#[test]
fn test_non_matching_reply_ignored() {
    // A message under any other identifier does not complete the request.
    let mut driver = GrappleCanDriver::new(0x05, 6);
    let msg = set_range_request();
    driver.send(&msg).unwrap();
    let state = RequestState::new(driver.reply_id(&msg), 0, 200, 0);
    // The request's own identifier (ack flag clear) does not match.
    let mut request_id = driver.reply_id(&msg);
    request_id.ack_flag = false;
    assert_eq!(state.on_message(request_id, &set_range_ack()), None);
    // A different device id does not match either.
    let mut other = driver.reply_id(&msg);
    other.device_id = 0x06;
    assert_eq!(state.on_message(other, &set_range_ack()), None);
    // The exact reply identifier does.
    assert_eq!(
        state.on_message(driver.reply_id(&msg), &set_range_ack()),
        Some(set_range_ack())
    );
}

#[test]
fn test_timeout_then_success_on_retry() {
    // The first 200 ms window yields nothing; the retry window does.
    let mut driver = GrappleCanDriver::new(0x05, 6);
    let msg = set_range_request();
    driver.send(&msg).unwrap();
    let mut state = RequestState::new(driver.reply_id(&msg), 0, 200, 3);
    let mut t = 0u64;
    while t < 200 {
        assert_eq!(state.on_tick(t), RequestTick::Wait);
        t += 5;
    }
    assert_eq!(state.on_tick(200), RequestTick::Resend);
    assert_eq!(state.retries_left, 2);
    let reply_raw = encode_id(driver.reply_id(&msg));
    let reply_payload = encode_payload(&set_range_ack());
    let received = driver.receive_frame(210, reply_raw, &reply_payload).unwrap();
    assert!(state.on_message(received.0, &received.1).is_some());
}

#[test]
fn test_timeout_without_retries() {
    // With no retries the same schedule times out.
    let mut driver = GrappleCanDriver::new(0x05, 6);
    let msg = set_range_request();
    driver.send(&msg).unwrap();
    let mut state = RequestState::new(driver.reply_id(&msg), 0, 200, 0);
    assert_eq!(state.on_tick(195), RequestTick::Wait);
    assert_eq!(state.on_tick(200), RequestTick::Expired);
    let e = state.timeout_error();
    assert_eq!(e.kind, ErrorKind::TimedOut);
    assert_eq!(e.to_error_code(), 0xFE);
    assert!(e.message.contains("Timed Out"));
}

#[test]
fn test_driver_filters_other_devices() {
    // Frames for another device id or device type are ignored.
    let mut driver = GrappleCanDriver::new(0x05, 6);
    let msg = set_range_request();
    driver.send(&msg).unwrap();
    let payload = encode_payload(&set_range_ack());
    let mut other_id = driver.reply_id(&msg);
    other_id.device_id = 0x07;
    assert_eq!(driver.receive_frame(0, encode_id(other_id), &payload), None);
    let mut other_type = driver.reply_id(&msg);
    other_type.device_type = 8;
    assert_eq!(driver.receive_frame(0, encode_id(other_type), &payload), None);
}
