//! The media envelope.
//!
//! Inside an encrypted media file, the block after the leading group commit
//! decrypts to an envelope describing the chunked content that follows: a
//! fixed sanity marker, the number of chunk messages, the timestamp that names
//! the decrypted artifact, and the group epoch. An envelope whose marker is
//! wrong or whose message count is zero is corrupt.

use vstd::prelude::*;
use crate::wire::{be_value, u64_from_be_bytes, u64_to_be_bytes};

verus! {

/// The fixed sanity marker, read as an 8-byte big-endian integer.
pub const ENVELOPE_SANITY: u64 = 0x5345434c4d454449;

/// A media envelope is always this many bytes: four 8-byte fields.
pub const ENVELOPE_LEN: usize = 32;

/// Decrypted metadata preceding chunked media content.
#[derive(Clone, Copy, Debug, PartialEq, Eq, Structural)]
pub struct MediaEnvelope {
    /// How many chunk messages follow; at least 1 in a valid envelope.
    pub num_msg: u64,
    /// Names the decrypted artifact; authoritative over any file name the
    /// transport used.
    pub timestamp: u64,
    /// The group epoch the sender recorded.
    pub epoch: u64,
}

/// Why an envelope was rejected.
#[derive(Clone, Copy, Debug, PartialEq, Eq, Structural)]
pub enum EnvelopeError {
    /// Not exactly [`ENVELOPE_LEN`] bytes.
    WrongLength,
    /// The sanity marker does not match [`ENVELOPE_SANITY`].
    BadSanity,
    /// The message count is zero.
    ZeroCount,
}

/// The error [`parse_envelope`] reports for bytes that are not a
/// well-formed envelope.
pub open spec fn spec_envelope_error(data: Seq<u8>) -> EnvelopeError {
    if data.len() != ENVELOPE_LEN {
        EnvelopeError::WrongLength
    } else if be_value(data.subrange(0, 8)) != ENVELOPE_SANITY {
        EnvelopeError::BadSanity
    } else {
        EnvelopeError::ZeroCount
    }
}

/// The bytes `data` are a well-formed envelope.
pub open spec fn envelope_wf(data: Seq<u8>) -> bool {
    &&& data.len() == ENVELOPE_LEN
    &&& be_value(data.subrange(0, 8)) == ENVELOPE_SANITY
    &&& be_value(data.subrange(8, 16)) != 0
}

/// The envelope the well-formed bytes `data` carry.
pub open spec fn spec_envelope(data: Seq<u8>) -> MediaEnvelope
    recommends
        envelope_wf(data),
{
    MediaEnvelope {
        num_msg: be_value(data.subrange(8, 16)) as u64,
        timestamp: be_value(data.subrange(16, 24)) as u64,
        epoch: be_value(data.subrange(24, 32)) as u64,
    }
}

fn read_field(data: &Vec<u8>, at: usize) -> (x: u64)
    requires
        at + 8 <= data@.len(),
    ensures
        x as nat == be_value(data@.subrange(at as int, at + 8)),
{
    let n = data.len();
    assert(at + 8 <= n);
    let field = vstd::slice::slice_subrange(data.as_slice(), at, at + 8);
    let x = u64_from_be_bytes(field);
    proof {
        assert(data@.subrange(at as int, at + 8).subrange(0, 8)
            =~= data@.subrange(at as int, at + 8));
    }
    x
}

/// Reads and validates a decrypted envelope block.
pub fn parse_envelope(data: &Vec<u8>) -> (r: Result<MediaEnvelope, EnvelopeError>)
    ensures
        match r {
            Ok(env) => envelope_wf(data@) && env == spec_envelope(data@),
            Err(e) => !envelope_wf(data@) && e == spec_envelope_error(data@),
        },
{
    if data.len() != ENVELOPE_LEN {
        return Err(EnvelopeError::WrongLength);
    }
    let sanity = read_field(data, 0);
    if sanity != ENVELOPE_SANITY {
        return Err(EnvelopeError::BadSanity);
    }
    let num_msg = read_field(data, 8);
    if num_msg == 0 {
        return Err(EnvelopeError::ZeroCount);
    }
    let timestamp = read_field(data, 16);
    let epoch = read_field(data, 24);
    Ok(MediaEnvelope { num_msg, timestamp, epoch })
}

/// Writes an envelope in its wire shape. Inverse of [`parse_envelope`] for
/// envelopes with a non-zero message count.
pub fn encode_envelope(env: &MediaEnvelope) -> (r: Vec<u8>)
    ensures
        r@.len() == ENVELOPE_LEN,
        be_value(r@.subrange(0, 8)) == ENVELOPE_SANITY,
        be_value(r@.subrange(8, 16)) == env.num_msg,
        be_value(r@.subrange(16, 24)) == env.timestamp,
        be_value(r@.subrange(24, 32)) == env.epoch,
        env.num_msg != 0 ==> envelope_wf(r@) && spec_envelope(r@) == *env,
{
    let mut r = u64_to_be_bytes(ENVELOPE_SANITY);
    let mut f1 = u64_to_be_bytes(env.num_msg);
    let mut f2 = u64_to_be_bytes(env.timestamp);
    let mut f3 = u64_to_be_bytes(env.epoch);
    let ghost s0 = r@;
    let ghost s1 = f1@;
    let ghost s2 = f2@;
    let ghost s3 = f3@;
    r.append(&mut f1);
    r.append(&mut f2);
    r.append(&mut f3);
    proof {
        let whole = s0 + s1 + s2 + s3;
        assert(r@ =~= whole);
        assert(whole.subrange(0, 8) =~= s0);
        assert(whole.subrange(8, 16) =~= s1);
        assert(whole.subrange(16, 24) =~= s2);
        assert(whole.subrange(24, 32) =~= s3);
    }
    r
}

} // verus!
