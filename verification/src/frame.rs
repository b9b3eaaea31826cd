//! Length-prefixed framing.
//!
//! Two framings are used. On the live byte stream every message travels as an
//! 8-byte big-endian length prefix followed by exactly that many payload
//! bytes. Persisted encrypted media files hold a sequence of blocks framed
//! with a 4-byte big-endian length prefix. Reading a short header, or fewer
//! payload bytes than the header declares, is a hard error: the file is
//! corrupt or truncated, never a partial result.

use vstd::prelude::*;
use vstd::slice::{slice_subrange, slice_to_vec};
use crate::wire::{be_value, u32_from_be_bytes, u32_to_be_bytes, u64_to_be_bytes, views_of};

verus! {

/// Why a framed block could not be read out of a buffer.
#[derive(Clone, Copy, Debug, PartialEq, Eq, Structural)]
pub enum FrameError {
    /// Fewer bytes remain than a length prefix needs.
    TruncatedHeader,
    /// The prefix declares more payload bytes than remain.
    TruncatedPayload,
}

/// A stream message: an 8-byte big-endian length prefix, then the payload.
pub fn encode_stream_frame(payload: &Vec<u8>) -> (r: Vec<u8>)
    ensures
        r@.len() == 8 + payload@.len(),
        be_value(r@.subrange(0, 8)) == payload@.len(),
        r@.skip(8) == payload@,
{
    let mut r = u64_to_be_bytes(payload.len() as u64);
    proof {
        let prefix = r@;
        assert((prefix + payload@).subrange(0, 8) =~= prefix);
        assert((prefix + payload@).skip(8) =~= payload@);
    }
    let mut tail = slice_to_vec(payload.as_slice());
    r.append(&mut tail);
    r
}

/// A file block: a 4-byte big-endian length prefix, then the payload.
pub fn encode_file_frame(payload: &Vec<u8>) -> (r: Vec<u8>)
    requires
        payload@.len() < 0x100000000,
    ensures
        r@.len() == 4 + payload@.len(),
        be_value(r@.subrange(0, 4)) == payload@.len(),
        r@.skip(4) == payload@,
{
    let mut r = u32_to_be_bytes(payload.len() as u32);
    proof {
        let prefix = r@;
        assert((prefix + payload@).subrange(0, 4) =~= prefix);
        assert((prefix + payload@).skip(4) =~= payload@);
    }
    let mut tail = slice_to_vec(payload.as_slice());
    r.append(&mut tail);
    r
}

/// The payload length a file block at `pos` declares.
pub open spec fn spec_file_frame_len(data: Seq<u8>, pos: int) -> nat
    recommends
        pos + 4 <= data.len(),
{
    be_value(data.subrange(pos, pos + 4))
}

/// A whole file block lies at `pos`: the header fits and so does the payload
/// it declares.
pub open spec fn file_frame_readable(data: Seq<u8>, pos: int) -> bool {
    &&& pos + 4 <= data.len()
    &&& pos + 4 + spec_file_frame_len(data, pos) <= data.len()
}

/// The payload of the file block at `pos`.
pub open spec fn spec_file_frame_payload(data: Seq<u8>, pos: int) -> Seq<u8>
    recommends
        file_frame_readable(data, pos),
{
    data.subrange(pos + 4, pos + 4 + spec_file_frame_len(data, pos))
}

/// The position just past the file block at `pos`.
pub open spec fn spec_file_frame_end(data: Seq<u8>, pos: int) -> int
    recommends
        file_frame_readable(data, pos),
{
    pos + 4 + spec_file_frame_len(data, pos)
}

/// Reads the file block at `pos` out of `data`: its payload and the position
/// of the next block. A short header or a short payload is a hard error.
pub fn read_file_frame(data: &Vec<u8>, pos: usize) -> (r: Result<(Vec<u8>, usize), FrameError>)
    requires
        pos <= data@.len(),
    ensures
        match r {
            Ok(p) => {
                &&& file_frame_readable(data@, pos as int)
                &&& p.0@ == spec_file_frame_payload(data@, pos as int)
                &&& p.1 as int == spec_file_frame_end(data@, pos as int)
                &&& p.1 <= data@.len()
            },
            Err(FrameError::TruncatedHeader) => pos + 4 > data@.len(),
            Err(FrameError::TruncatedPayload) => {
                &&& pos + 4 <= data@.len()
                &&& pos + 4 + spec_file_frame_len(data@, pos as int) > data@.len()
            },
        },
{
    if data.len() - pos < 4 {
        return Err(FrameError::TruncatedHeader);
    }
    let len32 = u32_from_be_bytes(slice_subrange(data.as_slice(), pos, pos + 4));
    proof {
        assert(data@.subrange(pos as int, pos + 4).subrange(0, 4)
            =~= data@.subrange(pos as int, pos + 4));
    }
    let len = len32 as usize;
    if data.len() - (pos + 4) < len {
        return Err(FrameError::TruncatedPayload);
    }
    let payload = slice_to_vec(slice_subrange(data.as_slice(), pos + 4, pos + 4 + len));
    Ok((payload, pos + 4 + len))
}

/// The payloads of the file blocks that tile `data` from `pos` to its end,
/// if they do: any leftover or truncated tail makes the whole file corrupt.
pub open spec fn spec_split_frames(data: Seq<u8>, pos: int) -> Option<Seq<Seq<u8>>>
    decreases data.len() - pos,
    when 0 <= pos <= data.len()
{
    if pos == data.len() {
        Some(Seq::empty())
    } else if file_frame_readable(data, pos) {
        match spec_split_frames(data, spec_file_frame_end(data, pos)) {
            Some(rest) => Some(seq![spec_file_frame_payload(data, pos)] + rest),
            None => None,
        }
    } else {
        None
    }
}

/// The error reading the blocks of `data` from `pos` runs into first.
pub open spec fn spec_split_error(data: Seq<u8>, pos: int) -> FrameError
    recommends
        0 <= pos <= data.len(),
        spec_split_frames(data, pos) is None,
    decreases data.len() - pos,
    when 0 <= pos <= data.len()
{
    if pos + 4 > data.len() {
        FrameError::TruncatedHeader
    } else if !file_frame_readable(data, pos) {
        FrameError::TruncatedPayload
    } else {
        spec_split_error(data, spec_file_frame_end(data, pos))
    }
}

/// `rest` with `pre` in front, when there is a `rest` at all.
pub open spec fn opt_prepend(pre: Seq<Seq<u8>>, rest: Option<Seq<Seq<u8>>>) -> Option<
    Seq<Seq<u8>>,
> {
    match rest {
        Some(r) => Some(pre + r),
        None => None,
    }
}

/// Splits a whole persisted file into the payloads of its blocks. The blocks
/// must tile the file exactly; a short header, a short payload, or a leftover
/// tail is a hard error, never a partial result.
pub fn split_file_frames(data: &Vec<u8>) -> (r: Result<Vec<Vec<u8>>, FrameError>)
    ensures
        match r {
            Ok(blocks) => spec_split_frames(data@, 0) == Some(views_of(blocks@)),
            Err(e) => {
                &&& spec_split_frames(data@, 0) is None
                &&& e == spec_split_error(data@, 0)
            },
        },
{
    let mut blocks: Vec<Vec<u8>> = Vec::new();
    let mut pos: usize = 0;
    while pos < data.len()
        invariant
            pos <= data@.len(),
            spec_split_frames(data@, 0) == opt_prepend(
                views_of(blocks@),
                spec_split_frames(data@, pos as int),
            ),
            spec_split_frames(data@, pos as int) is None ==> spec_split_error(data@, 0)
                == spec_split_error(data@, pos as int),
        decreases data@.len() - pos,
    {
        let ghost pre_blocks = blocks@;
        let ghost pre_pos = pos as int;
        match read_file_frame(data, pos) {
            Ok(p) => {
                let payload = p.0;
                let ghost payload_view = payload@;
                blocks.push(payload);
                pos = p.1;
                proof {
                    assert(views_of(blocks@) =~= views_of(pre_blocks).push(payload_view));
                    assert(spec_split_frames(data@, pre_pos) == opt_prepend(
                        seq![payload_view],
                        spec_split_frames(data@, pos as int),
                    ));
                    match spec_split_frames(data@, pos as int) {
                        Some(rest) => {
                            assert(views_of(pre_blocks) + (seq![payload_view] + rest)
                                =~= views_of(blocks@) + rest);
                        },
                        None => {
                            assert(spec_split_error(data@, pre_pos) == spec_split_error(
                                data@,
                                pos as int,
                            ));
                        },
                    }
                }
            },
            Err(e) => {
                proof {
                    assert(spec_split_frames(data@, pre_pos) is None);
                }
                return Err(e);
            },
        }
    }
    proof {
        assert(spec_split_frames(data@, pos as int) == Some(Seq::<Seq<u8>>::empty()));
        assert(views_of(blocks@) + Seq::<Seq<u8>>::empty() =~= views_of(blocks@));
    }
    Ok(blocks)
}

} // verus!
