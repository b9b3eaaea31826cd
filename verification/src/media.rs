//! Chunked media reassembly.
//!
//! An encrypted media file holds framed blocks in fixed order: a group commit
//! (decrypted but not treated as content), an envelope, then exactly as many
//! chunk blocks as the envelope declares. Each decrypted chunk starts with an
//! 8-byte big-endian chunk index, which must equal its sequential position
//! starting at 0; the rest is payload. The reassembled output is the exact
//! concatenation of the payloads, and is named by the envelope's timestamp,
//! never by the file name the transport used.
//!
//! Decryption and file I/O happen outside: the driver reads a block, has the
//! session decrypt it, and feeds the plaintext in. On any integrity failure
//! the machine reports which cleanup the driver owes — a partly written
//! output file must be removed, while any group-state advancement an embedded
//! commit caused must still be persisted, because replaying it is impossible.

use vstd::prelude::*;
use crate::envelope::{
    spec_envelope, spec_envelope_error, envelope_wf, parse_envelope, EnvelopeError, MediaEnvelope,
};
use crate::wire::{be_value, decimal_of, lemma_be_value_bound, lemma_pow256_small, u64_from_be_bytes, u64_to_decimal, views_of};

verus! {

/// Why media reassembly was aborted.
#[derive(Clone, Copy, Debug, PartialEq, Eq, Structural)]
pub enum MediaError {
    /// The envelope block failed validation.
    CorruptEnvelope(EnvelopeError),
    /// A decrypted chunk is shorter than its 8-byte index prefix.
    ChunkTooShort,
    /// A chunk's embedded index differs from its expected position.
    ChunkOutOfOrder,
    /// The driver reported that decryption or I/O failed.
    ExternalFailure,
}

/// The cleanup a failed reassembly owes.
#[derive(Clone, Copy, Debug, PartialEq, Eq, Structural)]
pub struct FailureDirective {
    /// A partly written output file exists and must be deleted.
    pub remove_partial_output: bool,
    /// Session state must still be saved: a commit embedded in the stream may
    /// have advanced the group's epoch even though the content was rejected.
    pub persist_session_state: bool,
}

/// What [`MediaDecryptor::feed`] reports for one decrypted block.
#[derive(Debug, PartialEq, Eq, Structural)]
pub enum FeedOutcome {
    /// The block was consumed; more blocks are expected.
    Accepted,
    /// The final chunk was consumed; the output is complete.
    Complete,
    /// The block was rejected; reassembly is over.
    Rejected { error: MediaError, cleanup: FailureDirective },
}

/// What is being reassembled; decides the output file name.
#[derive(Clone, Copy, Debug, PartialEq, Eq, Structural)]
pub enum MediaKind {
    Video,
    Thumbnail,
}

/// Where a reassembly stands in the fixed block order.
#[derive(Clone, Copy, Debug, PartialEq, Eq, Structural)]
pub enum MediaPhase {
    /// Expecting the leading group commit.
    AwaitCommit,
    /// Expecting the envelope.
    AwaitEnvelope,
    /// Expecting the next chunk.
    Chunks,
    /// All chunks consumed; the output is complete.
    Done,
    /// Reassembly was aborted.
    Failed,
}

/// `msg` is a well-formed chunk for position `idx`.
pub open spec fn chunk_ok(msg: Seq<u8>, idx: int) -> bool {
    msg.len() >= 8 && be_value(msg.subrange(0, 8)) == idx
}

/// The payload a chunk carries after its 8-byte index prefix.
pub open spec fn chunk_payload(msg: Seq<u8>) -> Seq<u8> {
    msg.skip(8)
}

/// Every chunk in `msgs` carries exactly its position as its index.
pub open spec fn all_chunks_ok(msgs: Seq<Seq<u8>>) -> bool {
    forall|i: int| 0 <= i < msgs.len() ==> chunk_ok(#[trigger] msgs[i], i)
}

/// The first `n` chunks of `msgs` carry their positions as their indices.
pub open spec fn chunks_ok_upto(msgs: Seq<Seq<u8>>, n: int) -> bool {
    forall|i: int| 0 <= i < n ==> chunk_ok(#[trigger] msgs[i], i)
}

/// The concatenation of every chunk's payload, in order.
pub open spec fn concat_payloads(msgs: Seq<Seq<u8>>) -> Seq<u8>
    decreases msgs.len(),
{
    if msgs.len() == 0 {
        Seq::empty()
    } else {
        concat_payloads(msgs.drop_last()) + chunk_payload(msgs.last())
    }
}

/// The error [`MediaDecryptor::feed`] reports for a bad chunk.
pub open spec fn spec_chunk_error(msg: Seq<u8>) -> MediaError {
    if msg.len() < 8 {
        MediaError::ChunkTooShort
    } else {
        MediaError::ChunkOutOfOrder
    }
}

/// The decrypted blocks of one media file are well formed: a leading commit,
/// a valid envelope, and at least as many chunks as the envelope declares,
/// each carrying exactly its position. Blocks past the declared count are
/// ignored, never read.
pub open spec fn media_file_ok(views: Seq<Seq<u8>>) -> bool {
    &&& views.len() >= 2
    &&& envelope_wf(views[1])
    &&& views.len() >= 2 + spec_envelope(views[1]).num_msg
    &&& forall|i: int|
        0 <= i < spec_envelope(views[1]).num_msg ==> chunk_ok(#[trigger] views[i + 2], i)
}

/// The content a well-formed media file reassembles to: the payloads of its
/// declared chunks, concatenated in order.
pub open spec fn media_content(views: Seq<Seq<u8>>) -> Seq<u8>
    recommends
        media_file_ok(views),
{
    concat_payloads(views.subrange(2, 2 + spec_envelope(views[1]).num_msg as int))
}

/// Splits a decrypted chunk into index and payload, and requires the index to
/// equal `expected`.
pub fn parse_chunk(msg: &Vec<u8>, expected: u64) -> (r: Result<Vec<u8>, MediaError>)
    ensures
        match r {
            Ok(payload) => chunk_ok(msg@, expected as int) && payload@ == chunk_payload(msg@),
            Err(e) => !chunk_ok(msg@, expected as int) && e == spec_chunk_error(msg@),
        },
{
    if msg.len() < 8 {
        return Err(MediaError::ChunkTooShort);
    }
    let idx = u64_from_be_bytes(msg.as_slice());
    if idx != expected {
        return Err(MediaError::ChunkOutOfOrder);
    }
    let n = msg.len();
    let payload = vstd::slice::slice_to_vec(vstd::slice::slice_subrange(msg.as_slice(), 8, n));
    proof {
        assert(msg@.subrange(8, msg@.len() as int) =~= chunk_payload(msg@));
    }
    Ok(payload)
}

/// Reassembles one media file from decrypted blocks fed in file order.
pub struct MediaDecryptor {
    /// Decides the output file name.
    pub kind: MediaKind,
    /// Which block comes next.
    pub phase: MediaPhase,
    /// The envelope; meaningful once `phase` is past `AwaitEnvelope`.
    pub envelope: MediaEnvelope,
    /// The position the next chunk must carry.
    pub next_chunk: u64,
    /// The reassembled output so far.
    pub out: Vec<u8>,
    /// The chunk blocks accepted so far.
    pub accepted: Ghost<Seq<Seq<u8>>>,
}

impl MediaDecryptor {
    /// The machine's state is internally consistent.
    pub open spec fn wf(self) -> bool {
        match self.phase {
            MediaPhase::AwaitCommit | MediaPhase::AwaitEnvelope => {
                &&& self.next_chunk == 0
                &&& self.out@.len() == 0
                &&& self.accepted@.len() == 0
            },
            MediaPhase::Chunks => {
                &&& 1 <= self.envelope.num_msg
                &&& self.next_chunk < self.envelope.num_msg
                &&& self.chunks_consistent()
            },
            MediaPhase::Done => {
                &&& 1 <= self.envelope.num_msg
                &&& self.next_chunk == self.envelope.num_msg
                &&& self.chunks_consistent()
            },
            MediaPhase::Failed => true,
        }
    }

    /// The accepted chunks carry their positions and the output is exactly
    /// their concatenated payloads.
    pub open spec fn chunks_consistent(self) -> bool {
        &&& self.accepted@.len() == self.next_chunk
        &&& chunks_ok_upto(self.accepted@, self.accepted@.len() as int)
        &&& self.out@ == concat_payloads(self.accepted@)
    }

    /// More blocks are expected.
    pub open spec fn in_progress(self) -> bool {
        self.phase is AwaitCommit || self.phase is AwaitEnvelope || self.phase is Chunks
    }

    /// Starts a reassembly, expecting the leading group commit.
    pub fn new(kind: MediaKind) -> (d: MediaDecryptor)
        ensures
            d.wf(),
            d.phase is AwaitCommit,
            d.kind == kind,
    {
        MediaDecryptor {
            kind,
            phase: MediaPhase::AwaitCommit,
            envelope: MediaEnvelope { num_msg: 0, timestamp: 0, epoch: 0 },
            next_chunk: 0,
            out: Vec::new(),
            accepted: Ghost(Seq::empty()),
        }
    }

    /// Consumes the next decrypted block.
    pub fn feed(&mut self, dec: &Vec<u8>) -> (r: FeedOutcome)
        requires
            old(self).wf(),
            old(self).in_progress(),
        ensures
            final(self).wf(),
            final(self).kind == old(self).kind,
            match old(self).phase {
                MediaPhase::AwaitCommit => {
                    &&& final(self).phase is AwaitEnvelope
                    &&& r == FeedOutcome::Accepted
                    &&& final(self).out@ == old(self).out@
                },
                MediaPhase::AwaitEnvelope => {
                    if envelope_wf(dec@) {
                        &&& final(self).phase is Chunks
                        &&& final(self).envelope == spec_envelope(dec@)
                        &&& final(self).next_chunk == 0
                        &&& final(self).out@ == old(self).out@
                        &&& r == FeedOutcome::Accepted
                    } else {
                        &&& final(self).phase is Failed
                        &&& r == (FeedOutcome::Rejected {
                            error: MediaError::CorruptEnvelope(spec_envelope_error(dec@)),
                            cleanup: FailureDirective {
                                remove_partial_output: false,
                                persist_session_state: false,
                            },
                        })
                    }
                },
                MediaPhase::Chunks => {
                    if chunk_ok(dec@, old(self).next_chunk as int) {
                        &&& final(self).envelope == old(self).envelope
                        &&& final(self).next_chunk == old(self).next_chunk + 1
                        &&& final(self).out@ == old(self).out@ + chunk_payload(dec@)
                        &&& final(self).accepted@ == old(self).accepted@.push(dec@)
                        &&& if old(self).next_chunk + 1 == old(self).envelope.num_msg {
                            final(self).phase is Done && r == FeedOutcome::Complete
                        } else {
                            final(self).phase is Chunks && r == FeedOutcome::Accepted
                        }
                    } else {
                        &&& final(self).phase is Failed
                        &&& r == (FeedOutcome::Rejected {
                            error: spec_chunk_error(dec@),
                            cleanup: FailureDirective {
                                remove_partial_output: true,
                                persist_session_state: true,
                            },
                        })
                    }
                },
                _ => false,
            },
    {
        match self.phase {
            MediaPhase::AwaitCommit => {
                // The commit was decrypted for its side effect on the group
                // state only; its content is not inspected.
                self.phase = MediaPhase::AwaitEnvelope;
                FeedOutcome::Accepted
            },
            MediaPhase::AwaitEnvelope => {
                match parse_envelope(dec) {
                    Ok(env) => {
                        self.envelope = env;
                        self.phase = MediaPhase::Chunks;
                        proof {
                            lemma_be_value_bound(dec@.subrange(8, 16));
                            lemma_pow256_small();
                            assert(self.out@ =~= Seq::<u8>::empty());
                            assert(self.out@ == concat_payloads(self.accepted@));
                        }
                        FeedOutcome::Accepted
                    },
                    Err(e) => {
                        self.phase = MediaPhase::Failed;
                        FeedOutcome::Rejected {
                            error: MediaError::CorruptEnvelope(e),
                            cleanup: FailureDirective {
                                remove_partial_output: false,
                                persist_session_state: false,
                            },
                        }
                    },
                }
            },
            MediaPhase::Chunks => {
                match parse_chunk(dec, self.next_chunk) {
                    Ok(mut payload) => {
                        let ghost before = self.accepted@;
                        self.out.append(&mut payload);
                        self.accepted = Ghost(before.push(dec@));
                        proof {
                            assert(self.accepted@.drop_last() =~= before);
                            assert(self.accepted@.last() == dec@);
                        }
                        self.next_chunk = self.next_chunk + 1;
                        if self.next_chunk == self.envelope.num_msg {
                            self.phase = MediaPhase::Done;
                            FeedOutcome::Complete
                        } else {
                            FeedOutcome::Accepted
                        }
                    },
                    Err(e) => {
                        self.phase = MediaPhase::Failed;
                        FeedOutcome::Rejected {
                            error: e,
                            cleanup: FailureDirective {
                                remove_partial_output: true,
                                persist_session_state: true,
                            },
                        }
                    },
                }
            },
            _ => {
                // Unreachable: `in_progress` is required.
                self.phase = MediaPhase::Failed;
                FeedOutcome::Rejected {
                    error: MediaError::ExternalFailure,
                    cleanup: FailureDirective {
                        remove_partial_output: false,
                        persist_session_state: false,
                    },
                }
            },
        }
    }

    /// The driver reports that decryption or I/O failed outside the machine.
    /// Any partly written output must go; group state may still have advanced
    /// and must be persisted.
    pub fn abort_external_failure(&mut self) -> (cleanup: FailureDirective)
        ensures
            final(self).phase is Failed,
            cleanup.remove_partial_output == (old(self).phase is Chunks || old(self).phase
                is Done),
            cleanup.persist_session_state,
    {
        let had_output = match self.phase {
            MediaPhase::Chunks | MediaPhase::Done => true,
            _ => false,
        };
        self.phase = MediaPhase::Failed;
        FailureDirective { remove_partial_output: had_output, persist_session_state: true }
    }

    /// The name of the decrypted artifact: derived from the envelope's
    /// timestamp, not from the transport's file name, which an untrusted
    /// server could have changed.
    pub fn output_filename(&self) -> (s: String)
        requires
            self.phase is Chunks || self.phase is Done,
        ensures
            s@ == spec_output_filename(self.kind, self.envelope.timestamp as nat),
    {
        let ts = u64_to_decimal(self.envelope.timestamp);
        match self.kind {
            MediaKind::Video => {
                let mut s = String::from_str("video_");
                s.append(ts.as_str());
                s.append(".mp4");
                s
            },
            MediaKind::Thumbnail => {
                let mut s = String::from_str("thumbnail_");
                s.append(ts.as_str());
                s.append(".png");
                s
            },
        }
    }

    /// Feeds a whole run of decrypted chunk blocks, one for each chunk the
    /// envelope declared.
    ///
    /// Two of the protocol's laws stand here. If every chunk carries exactly
    /// its position, the output is the exact concatenation of the chunk
    /// payloads, in order. If any chunk does not, reassembly fails and the
    /// caller is directed to remove the partial output and still persist
    /// session state.
    pub fn feed_chunks(&mut self, msgs: &Vec<Vec<u8>>) -> (r: FeedOutcome)
        requires
            old(self).wf(),
            old(self).phase is Chunks,
            old(self).next_chunk == 0,
            msgs@.len() == old(self).envelope.num_msg,
        ensures
            final(self).wf(),
            final(self).kind == old(self).kind,
            all_chunks_ok(views_of(msgs@)) ==> {
                &&& final(self).phase is Done
                &&& final(self).envelope == old(self).envelope
                &&& final(self).out@ == old(self).out@ + concat_payloads(views_of(msgs@))
                &&& r == FeedOutcome::Complete
            },
            !all_chunks_ok(views_of(msgs@)) ==> {
                &&& final(self).phase is Failed
                &&& r matches FeedOutcome::Rejected { error: _, cleanup }
                    && cleanup.remove_partial_output && cleanup.persist_session_state
            },
    {
        let ghost orig = *self;
        let ghost views = views_of(msgs@);
        let mut i: usize = 0;
        let mut outcome = FeedOutcome::Accepted;
        while i < msgs.len() && outcome == FeedOutcome::Accepted
            invariant
                self.wf(),
                self.kind == orig.kind,
                i <= msgs@.len(),
                msgs@.len() == orig.envelope.num_msg,
                views == views_of(msgs@),
                views.len() == msgs@.len(),
                outcome == FeedOutcome::Accepted ==> {
                    &&& self.phase is Chunks
                    &&& self.envelope == orig.envelope
                    &&& self.next_chunk == i
                    &&& chunks_ok_upto(views, i as int)
                    &&& self.out@ == orig.out@ + concat_payloads(views.subrange(0, i as int))
                },
                outcome == FeedOutcome::Complete ==> {
                    &&& self.phase is Done
                    &&& self.envelope == orig.envelope
                    &&& i == msgs@.len()
                    &&& all_chunks_ok(views)
                    &&& self.out@ == orig.out@ + concat_payloads(views)
                },
                outcome matches FeedOutcome::Rejected { error: _, cleanup } ==> {
                    &&& self.phase is Failed
                    &&& !all_chunks_ok(views)
                    &&& cleanup.remove_partial_output
                    &&& cleanup.persist_session_state
                },
            decreases msgs@.len() - i,
        {
            outcome = self.feed(&msgs[i]);
            proof {
                assert(views[i as int] == msgs@[i as int]@);
                if chunk_ok(msgs@[i as int]@, i as int) {
                    assert(views.subrange(0, i + 1).drop_last() =~= views.subrange(0, i as int));
                    assert(views.subrange(0, i + 1).last() == views[i as int]);
                    if i + 1 == msgs@.len() {
                        assert(views.subrange(0, views.len() as int) =~= views);
                    }
                } else {
                    assert(!chunk_ok(views[i as int], i as int));
                }
            }
            i = i + 1;
        }
        proof {
            if outcome == FeedOutcome::Accepted {
                // The loop can only stop handing back `Accepted` once every
                // chunk is consumed, and consuming the last chunk reports
                // `Complete` or a rejection.
                assert(self.next_chunk < self.envelope.num_msg);
                assert(i == msgs@.len());
                assert(false);
            }
        }
        outcome
    }
    /// Runs one whole media file's worth of decrypted blocks through the
    /// machine, in file order, stopping at the first rejection or once the
    /// declared chunks are all in.
    ///
    /// For every well-formed file — commit, valid envelope, then each chunk
    /// carrying exactly its position — the machine completes and the output
    /// is the exact concatenation of the chunk payloads. For every other
    /// file it never completes: it rejects a bad block where the block is
    /// fed, or runs out of blocks first.
    pub fn run(&mut self, blocks: &Vec<Vec<u8>>) -> (r: FeedOutcome)
        requires
            old(self).wf(),
            old(self).phase is AwaitCommit,
        ensures
            final(self).wf(),
            final(self).kind == old(self).kind,
            media_file_ok(views_of(blocks@)) ==> {
                &&& r == FeedOutcome::Complete
                &&& final(self).phase is Done
                &&& final(self).envelope == spec_envelope(views_of(blocks@)[1])
                &&& final(self).out@ == media_content(views_of(blocks@))
            },
            !media_file_ok(views_of(blocks@)) ==> {
                &&& r != FeedOutcome::Complete
                &&& !(final(self).phase is Done)
            },
    {
        let ghost orig = *self;
        let ghost views = views_of(blocks@);
        let mut i: usize = 0;
        let mut outcome = FeedOutcome::Accepted;
        while i < blocks.len() && outcome == FeedOutcome::Accepted
            invariant
                self.wf(),
                self.kind == orig.kind,
                i <= blocks@.len(),
                views == views_of(blocks@),
                views.len() == blocks@.len(),
                outcome == FeedOutcome::Accepted ==> {
                    &&& self.in_progress()
                    &&& (i == 0 ==> self.phase is AwaitCommit)
                    &&& (i == 1 ==> self.phase is AwaitEnvelope)
                    &&& (i >= 2 ==> {
                        &&& self.phase is Chunks
                        &&& envelope_wf(views[1])
                        &&& self.envelope == spec_envelope(views[1])
                        &&& self.next_chunk == i - 2
                        &&& self.next_chunk < self.envelope.num_msg
                        &&& chunks_ok_upto(views.skip(2), i - 2)
                        &&& self.out@ == concat_payloads(views.subrange(2, i as int))
                    })
                },
                outcome == FeedOutcome::Complete ==> {
                    &&& self.phase is Done
                    &&& envelope_wf(views[1])
                    &&& self.envelope == spec_envelope(views[1])
                    &&& 2 <= i <= views.len()
                    &&& i == 2 + self.envelope.num_msg
                    &&& chunks_ok_upto(views.skip(2), i - 2)
                    &&& self.out@ == concat_payloads(views.subrange(2, i as int))
                },
                outcome matches FeedOutcome::Rejected { error: _, cleanup: _ } ==> {
                    &&& self.phase is Failed
                    &&& !media_file_ok(views)
                },
            decreases blocks@.len() - i,
        {
            let ghost pre = *self;
            outcome = self.feed(&blocks[i]);
            proof {
                assert(views[i as int] == blocks@[i as int]@);
                if pre.phase is AwaitEnvelope && !envelope_wf(views[1]) {
                    assert(!media_file_ok(views));
                }
                if pre.phase is Chunks {
                    if chunk_ok(views[i as int], pre.next_chunk as int) {
                        assert(views.subrange(2, i + 1).drop_last() =~= views.subrange(
                            2,
                            i as int,
                        ));
                        assert(views.subrange(2, i + 1).last() == views[i as int]);
                        assert(views.skip(2)[i - 2] == views[i as int]);
                    } else {
                        assert(views.skip(2)[i - 2] == views[i as int]);
                        assert(!chunk_ok(views.skip(2)[i - 2], i - 2));
                        assert(!media_file_ok(views));
                    }
                }
            }
            i = i + 1;
        }
        proof {
            if media_file_ok(views) {
                assert(outcome != FeedOutcome::Accepted) by {
                    if outcome == FeedOutcome::Accepted {
                        assert(i == views.len());
                        if i >= 2 {
                            assert(self.next_chunk < self.envelope.num_msg);
                            assert(views.len() >= 2 + self.envelope.num_msg);
                        }
                    }
                }
                if outcome == FeedOutcome::Complete {
                    assert(views.subrange(2, i as int) =~= views.subrange(
                        2,
                        2 + spec_envelope(views[1]).num_msg as int,
                    ));
                }
            }
            if outcome == FeedOutcome::Complete {
                // Completion certifies the file: every declared chunk was
                // checked on its way in.
                assert(media_file_ok(views)) by {
                    let num = spec_envelope(views[1]).num_msg;
                    assert forall|j: int| 0 <= j < num implies chunk_ok(
                        #[trigger] views[j + 2],
                        j,
                    ) by {
                        assert(views.skip(2)[j] == views[j + 2]);
                        assert(chunk_ok(views.skip(2)[j], j));
                    }
                }
            }
        }
        outcome
    }
}

/// The name of a decrypted media artifact: a kind-specific prefix, the
/// envelope timestamp in decimal, and a kind-specific extension.
pub open spec fn spec_output_filename(kind: MediaKind, ts: nat) -> Seq<char> {
    match kind {
        MediaKind::Video => ("video_")@ + decimal_of(ts) + (".mp4")@,
        MediaKind::Thumbnail => ("thumbnail_")@ + decimal_of(ts) + (".png")@,
    }
}

} // verus!
