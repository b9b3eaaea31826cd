use secluso_core::heartbeat::{
    build_heartbeat_request, validate_heartbeat_response, HeartbeatError,
};

#[test]
fn request_embeds_the_timestamp_big_endian() {
    assert_eq!(build_heartbeat_request(0x0102030405060708), vec![1, 2, 3, 4, 5, 6, 7, 8]);
}

#[test]
fn echoed_timestamp_validates_and_renders() {
    let request = build_heartbeat_request(1712345678);
    // The device echoes the timestamp it was sent.
    assert_eq!(validate_heartbeat_response(&request, 1712345678).unwrap(), "1712345678");
}

/// A response echoing a different timestamp than requested is a validation
/// failure, never accepted as a live heartbeat.
#[test]
fn wrong_echo_is_a_validation_failure() {
    let stale = build_heartbeat_request(1712345677);
    assert_eq!(
        validate_heartbeat_response(&stale, 1712345678).unwrap_err(),
        HeartbeatError::TimestampMismatch
    );
}

#[test]
fn malformed_response_is_rejected() {
    assert_eq!(
        validate_heartbeat_response(&vec![1, 2, 3], 5).unwrap_err(),
        HeartbeatError::MalformedResponse
    );
    assert_eq!(
        validate_heartbeat_response(&vec![0; 9], 5).unwrap_err(),
        HeartbeatError::MalformedResponse
    );
}
