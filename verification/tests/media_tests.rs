use secluso_core::envelope::{
    encode_envelope, parse_envelope, EnvelopeError, MediaEnvelope, ENVELOPE_LEN,
};
use secluso_core::media::{
    parse_chunk, FeedOutcome, MediaDecryptor, MediaError, MediaKind, MediaPhase,
};
use secluso_core::wire::u64_to_be_bytes;

fn chunk(index: u64, payload: &[u8]) -> Vec<u8> {
    let mut c = u64_to_be_bytes(index);
    c.extend_from_slice(payload);
    c
}

fn envelope_bytes(num_msg: u64, timestamp: u64, epoch: u64) -> Vec<u8> {
    encode_envelope(&MediaEnvelope { num_msg, timestamp, epoch })
}

#[test]
fn envelope_round_trips() {
    let bytes = envelope_bytes(3, 1712345678, 42);
    assert_eq!(bytes.len(), ENVELOPE_LEN);
    let env = parse_envelope(&bytes).unwrap();
    assert_eq!(env.num_msg, 3);
    assert_eq!(env.timestamp, 1712345678);
    assert_eq!(env.epoch, 42);
}

#[test]
fn envelope_wrong_length_rejected() {
    assert_eq!(parse_envelope(&vec![1u8, 2, 3]).unwrap_err(), EnvelopeError::WrongLength);
}

#[test]
fn envelope_bad_sanity_rejected() {
    let mut bytes = envelope_bytes(3, 7, 0);
    bytes[0] ^= 0xFF;
    assert_eq!(parse_envelope(&bytes).unwrap_err(), EnvelopeError::BadSanity);
}

#[test]
fn envelope_zero_count_rejected() {
    let bytes = envelope_bytes(0, 7, 0);
    assert_eq!(parse_envelope(&bytes).unwrap_err(), EnvelopeError::ZeroCount);
}

#[test]
fn parse_chunk_splits_index_and_payload() {
    let c = chunk(5, b"body");
    assert_eq!(parse_chunk(&c, 5).unwrap(), b"body".to_vec());
    assert_eq!(parse_chunk(&c, 4).unwrap_err(), MediaError::ChunkOutOfOrder);
    assert_eq!(parse_chunk(&vec![1u8, 2, 3], 0).unwrap_err(), MediaError::ChunkTooShort);
}

/// A media file of commit + envelope(N=3) + chunks [0, 1, 2] decrypts to the
/// three payload bodies concatenated, named by the envelope's timestamp.
#[test]
fn three_chunk_file_reassembles_in_order() {
    let mut d = MediaDecryptor::new(MediaKind::Video);
    assert_eq!(d.feed(&b"commit".to_vec()), FeedOutcome::Accepted);
    assert_eq!(d.feed(&envelope_bytes(3, 1712345678, 9)), FeedOutcome::Accepted);
    assert_eq!(d.output_filename(), "video_1712345678.mp4");
    assert_eq!(d.feed(&chunk(0, b"alpha ")), FeedOutcome::Accepted);
    assert_eq!(d.feed(&chunk(1, b"beta ")), FeedOutcome::Accepted);
    assert_eq!(d.feed(&chunk(2, b"gamma")), FeedOutcome::Complete);
    assert_eq!(d.phase, MediaPhase::Done);
    assert_eq!(d.out, b"alpha beta gamma".to_vec());
    assert_eq!(d.output_filename(), "video_1712345678.mp4");
}

#[test]
fn feed_chunks_concatenates_all_payloads() {
    let mut d = MediaDecryptor::new(MediaKind::Video);
    d.feed(&b"commit".to_vec());
    d.feed(&envelope_bytes(3, 4, 0));
    let msgs = vec![chunk(0, b"a"), chunk(1, b"bb"), chunk(2, b"ccc")];
    assert_eq!(d.feed_chunks(&msgs), FeedOutcome::Complete);
    assert_eq!(d.out, b"abbccc".to_vec());
}

/// A media file whose chunks skip an index fails with an integrity error; the
/// partial output must be removed while session state is still persisted.
#[test]
fn skipped_chunk_index_aborts_and_directs_cleanup() {
    let mut d = MediaDecryptor::new(MediaKind::Video);
    d.feed(&b"commit".to_vec());
    d.feed(&envelope_bytes(3, 4, 0));
    assert_eq!(d.feed(&chunk(0, b"a")), FeedOutcome::Accepted);
    match d.feed(&chunk(2, b"c")) {
        FeedOutcome::Rejected { error, cleanup } => {
            assert_eq!(error, MediaError::ChunkOutOfOrder);
            assert!(cleanup.remove_partial_output);
            assert!(cleanup.persist_session_state);
        },
        other => panic!("expected a rejection, got {:?}", other),
    }
    assert_eq!(d.phase, MediaPhase::Failed);
}

#[test]
fn feed_chunks_rejects_out_of_order_run() {
    let mut d = MediaDecryptor::new(MediaKind::Video);
    d.feed(&b"commit".to_vec());
    d.feed(&envelope_bytes(2, 4, 0));
    let msgs = vec![chunk(0, b"a"), chunk(0, b"dup")];
    match d.feed_chunks(&msgs) {
        FeedOutcome::Rejected { error, cleanup } => {
            assert_eq!(error, MediaError::ChunkOutOfOrder);
            assert!(cleanup.remove_partial_output);
            assert!(cleanup.persist_session_state);
        },
        other => panic!("expected a rejection, got {:?}", other),
    }
}

#[test]
fn short_chunk_aborts() {
    let mut d = MediaDecryptor::new(MediaKind::Video);
    d.feed(&b"commit".to_vec());
    d.feed(&envelope_bytes(1, 4, 0));
    match d.feed(&vec![1u8, 2]) {
        FeedOutcome::Rejected { error, .. } => assert_eq!(error, MediaError::ChunkTooShort),
        other => panic!("expected a rejection, got {:?}", other),
    }
}

#[test]
fn corrupt_envelope_aborts_without_cleanup_debt() {
    let mut d = MediaDecryptor::new(MediaKind::Video);
    d.feed(&b"commit".to_vec());
    match d.feed(&envelope_bytes(0, 4, 0)) {
        FeedOutcome::Rejected { error, cleanup } => {
            assert_eq!(error, MediaError::CorruptEnvelope(EnvelopeError::ZeroCount));
            assert!(!cleanup.remove_partial_output);
            assert!(!cleanup.persist_session_state);
        },
        other => panic!("expected a rejection, got {:?}", other),
    }
}

#[test]
fn external_failure_mid_chunks_directs_cleanup() {
    let mut d = MediaDecryptor::new(MediaKind::Video);
    d.feed(&b"commit".to_vec());
    d.feed(&envelope_bytes(2, 4, 0));
    d.feed(&chunk(0, b"a"));
    let cleanup = d.abort_external_failure();
    assert!(cleanup.remove_partial_output);
    assert!(cleanup.persist_session_state);
    assert_eq!(d.phase, MediaPhase::Failed);
}

#[test]
fn thumbnail_filename_uses_its_own_prefix() {
    let mut d = MediaDecryptor::new(MediaKind::Thumbnail);
    d.feed(&b"commit".to_vec());
    d.feed(&envelope_bytes(1, 77, 0));
    assert_eq!(d.output_filename(), "thumbnail_77.png");
}

#[test]
fn run_reassembles_a_whole_file() {
    let mut d = MediaDecryptor::new(MediaKind::Video);
    let blocks = vec![
        b"commit".to_vec(),
        envelope_bytes(2, 1712345678, 1),
        chunk(0, b"first "),
        chunk(1, b"second"),
    ];
    assert_eq!(d.run(&blocks), FeedOutcome::Complete);
    assert_eq!(d.out, b"first second".to_vec());
    assert_eq!(d.output_filename(), "video_1712345678.mp4");
}

#[test]
fn run_ignores_blocks_past_the_declared_count() {
    let mut d = MediaDecryptor::new(MediaKind::Video);
    let blocks = vec![
        b"commit".to_vec(),
        envelope_bytes(1, 5, 0),
        chunk(0, b"only"),
        b"trailing junk".to_vec(),
    ];
    assert_eq!(d.run(&blocks), FeedOutcome::Complete);
    assert_eq!(d.out, b"only".to_vec());
}

#[test]
fn run_never_completes_a_file_with_missing_chunks() {
    let mut d = MediaDecryptor::new(MediaKind::Video);
    let blocks = vec![b"commit".to_vec(), envelope_bytes(3, 5, 0), chunk(0, b"a")];
    let r = d.run(&blocks);
    assert_ne!(r, FeedOutcome::Complete);
    assert_ne!(d.phase, MediaPhase::Done);
}

#[test]
fn run_rejects_a_bad_chunk_where_it_is_fed() {
    let mut d = MediaDecryptor::new(MediaKind::Video);
    let blocks =
        vec![b"commit".to_vec(), envelope_bytes(2, 5, 0), chunk(0, b"a"), chunk(5, b"b")];
    match d.run(&blocks) {
        FeedOutcome::Rejected { error, cleanup } => {
            assert_eq!(error, MediaError::ChunkOutOfOrder);
            assert!(cleanup.remove_partial_output);
            assert!(cleanup.persist_session_state);
        }
        other => panic!("expected a rejection, got {:?}", other),
    }
}
