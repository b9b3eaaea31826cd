use secluso_core::frame::{encode_file_frame, encode_stream_frame, read_file_frame, FrameError};
use secluso_core::wire::{
    u32_from_be_bytes, u32_to_be_bytes, u64_from_be_bytes, u64_to_be_bytes, u64_to_decimal,
};

#[test]
fn u64_round_trips_through_be_bytes() {
    for x in [0u64, 1, 255, 256, 0xDEAD_BEEF, u64::MAX] {
        let b = u64_to_be_bytes(x);
        assert_eq!(b.len(), 8);
        assert_eq!(u64_from_be_bytes(&b), x);
    }
}

#[test]
fn u64_be_bytes_exact() {
    assert_eq!(u64_to_be_bytes(0x0102030405060708), vec![1, 2, 3, 4, 5, 6, 7, 8]);
    assert_eq!(u64_from_be_bytes(&[0, 0, 0, 0, 0, 0, 1, 0]), 256);
}

#[test]
fn u32_be_bytes_exact() {
    assert_eq!(u32_to_be_bytes(0xA1B2C3D4), vec![0xA1, 0xB2, 0xC3, 0xD4]);
    assert_eq!(u32_from_be_bytes(&[0, 0, 2, 1]), 513);
}

#[test]
fn decimal_rendering_exact() {
    assert_eq!(u64_to_decimal(0), "0");
    assert_eq!(u64_to_decimal(7), "7");
    assert_eq!(u64_to_decimal(1712345678), "1712345678");
    assert_eq!(u64_to_decimal(u64::MAX), "18446744073709551615");
}

#[test]
fn stream_frame_is_len_prefix_then_payload() {
    let payload = vec![9u8, 8, 7];
    let framed = encode_stream_frame(&payload);
    assert_eq!(framed, vec![0, 0, 0, 0, 0, 0, 0, 3, 9, 8, 7]);
}

#[test]
fn file_frame_is_len_prefix_then_payload() {
    let payload = vec![5u8, 6];
    let framed = encode_file_frame(&payload);
    assert_eq!(framed, vec![0, 0, 0, 2, 5, 6]);
}

#[test]
fn file_frames_parse_in_sequence() {
    let mut data = encode_file_frame(&vec![1u8, 2, 3]);
    data.extend_from_slice(&encode_file_frame(&vec![4u8]));
    let (first, next) = read_file_frame(&data, 0).unwrap();
    assert_eq!(first, vec![1, 2, 3]);
    assert_eq!(next, 7);
    let (second, end) = read_file_frame(&data, next).unwrap();
    assert_eq!(second, vec![4]);
    assert_eq!(end, data.len());
}

#[test]
fn short_header_is_a_hard_error() {
    let data = vec![0u8, 0, 1];
    assert_eq!(read_file_frame(&data, 0).unwrap_err(), FrameError::TruncatedHeader);
}

#[test]
fn short_payload_is_a_hard_error() {
    // Header declares 5 payload bytes; only 2 follow.
    let data = vec![0u8, 0, 0, 5, 1, 2];
    assert_eq!(read_file_frame(&data, 0).unwrap_err(), FrameError::TruncatedPayload);
}

#[test]
fn whole_file_splits_into_its_blocks() {
    let mut data = encode_file_frame(&vec![1u8, 2]);
    data.extend_from_slice(&encode_file_frame(&vec![]));
    data.extend_from_slice(&encode_file_frame(&vec![7u8]));
    let blocks = secluso_core::frame::split_file_frames(&data).unwrap();
    assert_eq!(blocks, vec![vec![1u8, 2], vec![], vec![7u8]]);
    assert_eq!(secluso_core::frame::split_file_frames(&Vec::new()).unwrap(), Vec::<Vec<u8>>::new());
}

#[test]
fn leftover_tail_corrupts_the_whole_file() {
    let mut data = encode_file_frame(&vec![1u8, 2]);
    data.extend_from_slice(&[0, 9]);
    assert_eq!(
        secluso_core::frame::split_file_frames(&data).unwrap_err(),
        FrameError::TruncatedHeader
    );
    let mut data2 = encode_file_frame(&vec![1u8]);
    data2.extend_from_slice(&[0, 0, 0, 9, 1]);
    assert_eq!(
        secluso_core::frame::split_file_frames(&data2).unwrap_err(),
        FrameError::TruncatedPayload
    );
}
