//! The heartbeat request/response check.
//!
//! A heartbeat request embeds the timestamp the caller chose; the device is
//! expected to echo it. A response is live only if the echoed timestamp
//! equals the one requested; anything else is a stale or mismatched reply and
//! is reported as a validation failure, never accepted. Encryption and
//! decryption of the request and response are the config channel session's
//! work and happen outside.

use vstd::prelude::*;
use crate::wire::{be_value, decimal_of, u64_from_be_bytes, u64_to_be_bytes, u64_to_decimal};

verus! {

/// Why a heartbeat response was rejected.
#[derive(Clone, Copy, Debug, PartialEq, Eq, Structural)]
pub enum HeartbeatError {
    /// The decrypted response is not exactly an 8-byte timestamp.
    MalformedResponse,
    /// The response echoes a different timestamp than was requested.
    TimestampMismatch,
}

/// The decrypted response echoes exactly the expected timestamp.
pub open spec fn heartbeat_response_ok(dec: Seq<u8>, expected: u64) -> bool {
    dec.len() == 8 && be_value(dec) == expected
}

/// The request plaintext: the requested timestamp as 8 big-endian bytes,
/// ready for the config channel session to encrypt.
pub fn build_heartbeat_request(timestamp: u64) -> (r: Vec<u8>)
    ensures
        r@.len() == 8,
        be_value(r@) == timestamp,
        heartbeat_response_ok(r@, timestamp),
{
    u64_to_be_bytes(timestamp)
}

/// Checks a decrypted heartbeat response against the timestamp the request
/// carried, and renders the confirmed timestamp in decimal.
pub fn validate_heartbeat_response(dec: &Vec<u8>, expected: u64) -> (r: Result<
    String,
    HeartbeatError,
>)
    ensures
        match r {
            Ok(s) => heartbeat_response_ok(dec@, expected) && s@ == decimal_of(expected as nat),
            Err(HeartbeatError::MalformedResponse) => dec@.len() != 8,
            Err(HeartbeatError::TimestampMismatch) => dec@.len() == 8 && be_value(dec@)
                != expected,
        },
{
    if dec.len() != 8 {
        return Err(HeartbeatError::MalformedResponse);
    }
    let echoed = u64_from_be_bytes(dec.as_slice());
    proof {
        assert(dec@.subrange(0, 8) =~= dec@);
    }
    if echoed != expected {
        return Err(HeartbeatError::TimestampMismatch);
    }
    Ok(u64_to_decimal(expected))
}

} // verus!
