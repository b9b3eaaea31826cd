//! The session-management facade.
//!
//! One `SessionManager` composes the slot registry with the protocol
//! machines: it records device initialization (idempotently), tracks pairing
//! results and the first-time flag, classifies decrypted push payloads,
//! unpacks livestream update batches, aggregates best-effort deregistration,
//! and owns the once-only shutdown flag. The embedding application holds the
//! manager behind one mutex, performs all I/O and secure-session calls, and
//! reports their outcomes back in.

use vstd::prelude::*;
use vstd::bytes::{spec_u64_from_le_bytes, u64_from_le_bytes};
use crate::registry::{slot_group, ChannelId, ChannelLockRegistry, InitParams, SessionModel, Slot};
use crate::wire::{decimal_of, u64_to_decimal, views_of};

verus! {

/// Why a decrypted push payload was rejected.
#[derive(Clone, Copy, Debug, PartialEq, Eq, Structural)]
pub enum PushError {
    /// Neither a JSON document nor an 8-byte timestamp.
    UnrecognizedLength,
}

/// Why a livestream update batch was rejected.
#[derive(Clone, Copy, Debug, PartialEq, Eq, Structural)]
pub enum UpdateError {
    /// The batch bytes do not decode to a list of commit messages.
    MalformedBatch,
}

/// The text of `bytes` when they are one well-formed JSON document, read as
/// the outside JSON parser reads it.
pub uninterp spec fn json_text_of(bytes: Seq<u8>) -> Option<Seq<char>>;

/// Relies on `serde_json::from_slice::<Value>`: whether bytes parse as one
/// JSON document is a function of the bytes alone, and a JSON document is
/// valid UTF-8, so its text is handed back as read.
#[verifier::external_body]
fn decode_json_text(bytes: &Vec<u8>) -> (r: Option<String>)
    ensures
        match (r, json_text_of(bytes@)) {
            (Some(s), Some(t)) => s@ == t,
            (None, None) => true,
            _ => false,
        },
{
    if serde_json::from_slice::<serde_json::Value>(bytes.as_slice()).is_ok() {
        match core::str::from_utf8(bytes.as_slice()) {
            Ok(s) => Some(s.to_string()),
            Err(_) => None,
        }
    } else {
        None
    }
}

/// The list of byte strings `bytes` decode to, read as the outside decoder
/// reads it.
pub uninterp spec fn update_batch_of(bytes: Seq<u8>) -> Option<Seq<Seq<u8>>>;

/// Relies on `bincode::deserialize::<Vec<Vec<u8>>>`: the decoded list of
/// byte strings is a function of the input bytes alone.
#[verifier::external_body]
fn decode_update_batch(bytes: &Vec<u8>) -> (r: Option<Vec<Vec<u8>>>)
    ensures
        match (r, update_batch_of(bytes@)) {
            (Some(v), Some(s)) => views_of(v@) == s,
            (None, None) => true,
            _ => false,
        },
{
    bincode::deserialize::<Vec<Vec<u8>>>(bytes.as_slice()).ok()
}

/// Classifies a decrypted push payload the way the push channel expects:
/// a JSON document is handed through as text; otherwise exactly 8 bytes are
/// a little-endian timestamp, rendered in decimal when non-zero and standing
/// for a pending download when zero; anything else is rejected.
pub fn classify_push_payload(dec: &Vec<u8>) -> (r: Result<String, PushError>)
    ensures
        match r {
            Ok(s) => match json_text_of(dec@) {
                Some(t) => s@ == t,
                None => {
                    &&& dec@.len() == 8
                    &&& if spec_u64_from_le_bytes(dec@) != 0 {
                        s@ == decimal_of(spec_u64_from_le_bytes(dec@) as nat)
                    } else {
                        s@ == ("Download")@
                    }
                },
            },
            Err(PushError::UnrecognizedLength) => {
                &&& json_text_of(dec@) is None
                &&& dec@.len() != 8
            },
        },
{
    match decode_json_text(dec) {
        Some(text) => Ok(text),
        None => {
            if dec.len() == 8 {
                let timestamp = u64_from_le_bytes(dec.as_slice());
                if timestamp != 0 {
                    Ok(u64_to_decimal(timestamp))
                } else {
                    Ok(String::from_str("Download"))
                }
            } else {
                Err(PushError::UnrecognizedLength)
            }
        },
    }
}

/// Unpacks a livestream update batch into its commit messages, each of which
/// the livestream session must then decrypt in order (for their side effect
/// on the group state), with the state persisted once afterwards.
pub fn prepare_livestream_update(bytes: &Vec<u8>) -> (r: Result<Vec<Vec<u8>>, UpdateError>)
    ensures
        match r {
            Ok(v) => update_batch_of(bytes@) matches Some(s) && views_of(v@) == s,
            Err(UpdateError::MalformedBatch) => update_batch_of(bytes@) is None,
        },
{
    match decode_update_batch(bytes) {
        Some(v) => Ok(v),
        None => Err(UpdateError::MalformedBatch),
    }
}

/// Deregistration succeeds if at least one channel's cleanup ran without
/// fault.
pub fn any_cleanup_succeeded(results: &Vec<bool>) -> (r: bool)
    ensures
        r == exists|i: int| 0 <= i < results@.len() && results@[i],
{
    let mut i: usize = 0;
    while i < results.len()
        invariant
            i <= results@.len(),
            forall|j: int| 0 <= j < i ==> !results@[j],
        decreases results@.len() - i,
    {
        if results[i] {
            return true;
        }
        i = i + 1;
    }
    false
}

/// The top-level facade: the slot registry plus process-wide state.
pub struct SessionManager {
    pub registry: ChannelLockRegistry,
    /// Set exactly once; gates teardown of process-wide resources but cancels
    /// nothing in flight.
    pub shutting_down: bool,
}

impl SessionManager {
    pub open spec fn wf(self) -> bool {
        self.registry.wf()
    }

    pub fn new() -> (m: SessionManager)
        ensures
            m.wf(),
            m.registry.slots@.len() == 0,
            m.registry.init_params@.len() == 0,
            !m.shutting_down,
    {
        SessionManager { registry: ChannelLockRegistry::new(), shutting_down: false }
    }

    /// Records (or refreshes) the device's initialization parameters.
    ///
    /// Repeating the call is harmless: no slot is touched, so channel
    /// sessions that are already materialized are never re-created; a later
    /// access materializes missing ones lazily from these parameters.
    pub fn initialize_device(
        &mut self,
        device: &String,
        storage_dir: String,
        first_time: bool,
    ) -> (r: bool)
        requires
            old(self).wf(),
        ensures
            final(self).wf(),
            r,
            final(self).registry.slots@ == old(self).registry.slots@,
            final(self).shutting_down == old(self).shutting_down,
            final(self).registry.has_params(device@),
            final(self).registry.params_of(device@).storage_dir@ == storage_dir@,
            final(self).registry.params_of(device@).first_time == first_time,
            forall|d: Seq<char>|
                d != device@ ==> #[trigger] final(self).registry.has_params(d) == old(
                    self,
                ).registry.has_params(d),
    {
        self.registry.record_params(device, InitParams { storage_dir, first_time });
        true
    }

    /// Records that one channel's pairing round committed: the channel's
    /// session now belongs to `group_name`. The slot is created or its
    /// session model replaced as needed; every other slot is untouched.
    pub fn record_pairing_commit(
        &mut self,
        device: &String,
        channel: ChannelId,
        group_name: String,
    )
        requires
            old(self).wf(),
        ensures
            final(self).wf(),
            final(self).shutting_down == old(self).shutting_down,
            final(self).registry.init_params@ == old(self).registry.init_params@,
            final(self).registry.device_active(device@),
            final(self).registry.has_slot(device@, channel),
            slot_group(
                final(self).registry.slots@[final(self).registry.slot_index(device@, channel)],
            ) == Some(group_name@),
            old(self).registry.has_slot(device@, channel) ==> final(self).registry.slots@ == old(
                self,
            ).registry.slots@.update(
                old(self).registry.slot_index(device@, channel),
                Slot {
                    session: Some(SessionModel { group_name: Some(group_name) }),
                    ..old(self).registry.slots@[old(self).registry.slot_index(device@, channel)]
                },
            ),
            !old(self).registry.has_slot(device@, channel) ==> final(self).registry.slots@ == old(
                self,
            ).registry.slots@.push(
                Slot {
                    device: *device,
                    channel,
                    session: Some(SessionModel { group_name: Some(group_name) }),
                    locked_by: None::<String>,
                },
            ),
    {
        let ghost pre = self.registry;
        let idx = self.registry.resolve(device, channel);
        proof {
            if pre.has_slot(device@, channel) {
                pre.lemma_slot_index(device@, channel, idx as int);
            }
        }
        self.registry.set_session_model(idx, Some(group_name));
        proof {
            assert(self.registry.slots@[idx as int].device@ == device@);
            assert(self.registry.slots@[idx as int].session matches Some(m) && m.group_name
                is Some);
            self.registry.lemma_slot_index(device@, channel, idx as int);
            if !pre.has_slot(device@, channel) {
                assert(self.registry.slots@ =~= pre.slots@.push(
                    Slot {
                        device: *device,
                        channel,
                        session: self.registry.slots@[idx as int].session,
                        locked_by: None::<String>,
                    },
                ));
            }
        }
    }

    /// Clears the device's first-time flag once pairing has completed for
    /// every channel, keeping its storage directory. Reports whether the
    /// device had recorded parameters at all.
    pub fn finish_pairing(&mut self, device: &String) -> (r: bool)
        requires
            old(self).wf(),
        ensures
            final(self).wf(),
            final(self).shutting_down == old(self).shutting_down,
            final(self).registry.slots@ == old(self).registry.slots@,
            r == old(self).registry.has_params(device@),
            r ==> {
                &&& final(self).registry.has_params(device@)
                &&& !final(self).registry.params_of(device@).first_time
                &&& final(self).registry.params_of(device@).storage_dir@ == old(
                    self,
                ).registry.params_of(device@).storage_dir@
            },
            !r ==> *final(self) == *old(self),
            forall|d: Seq<char>|
                d != device@ ==> #[trigger] final(self).registry.has_params(d) == old(
                    self,
                ).registry.has_params(d),
    {
        let dir = match self.registry.lookup_params(device) {
            Some(p) => p.storage_dir.clone(),
            None => {
                return false;
            },
        };
        self.registry.record_params(device, InitParams { storage_dir: dir, first_time: false });
        true
    }

    /// Removes the device's slots and parameters after per-channel cleanup,
    /// and reports success if at least one channel's cleanup ran without
    /// fault; otherwise the caller is to warn that deregistration was
    /// skipped.
    pub fn finish_deregister(&mut self, device: &String, cleanup_ok: &Vec<bool>) -> (r: bool)
        requires
            old(self).wf(),
        ensures
            final(self).wf(),
            final(self).shutting_down == old(self).shutting_down,
            final(self).registry.slots@ == old(self).registry.slots@.filter(
                |s: Slot| s.device@ != device@,
            ),
            forall|c: ChannelId| !final(self).registry.has_slot(device@, c),
            !final(self).registry.has_params(device@),
            r == exists|i: int| 0 <= i < cleanup_ok@.len() && cleanup_ok@[i],
    {
        self.registry.remove_device(device);
        any_cleanup_succeeded(cleanup_ok)
    }

    /// Flags shutdown, exactly once: the first call reports `false` and every
    /// later one `true`, so process-wide teardown runs a single time.
    pub fn begin_shutdown(&mut self) -> (already: bool)
        requires
            old(self).wf(),
        ensures
            final(self).wf(),
            final(self).registry == old(self).registry,
            final(self).shutting_down,
            already == old(self).shutting_down,
    {
        let already = self.shutting_down;
        self.shutting_down = true;
        already
    }
}

} // verus!
