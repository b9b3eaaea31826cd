//! The per-(device, channel) slot registry.
//!
//! Every (device, channel) pair names exactly one session slot. A slot is
//! created empty the first time the pair is referenced, holds at most one
//! live secure session, and is guarded by a lock whose holder is recorded for
//! contention diagnostics. The registry here is the bookkeeping core: the
//! embedding application serializes access to it behind a single mutex, keeps
//! the real session objects beside it, and enforces the acquisition timeout
//! with its own clock — on timeout an operation sees the `Busy` outcome
//! recorded here instead of blocking.

use vstd::prelude::*;

verus! {

/// The fixed set of logical channels a device carries, each backed by its
/// own secure session.
#[derive(Clone, Copy, Debug, PartialEq, Eq, Structural)]
pub enum ChannelId {
    Motion,
    Livestream,
    Fcm,
    Config,
    Thumbnail,
    Setup,
}

/// Recorded when a device is initialized; used to materialize a slot's
/// session lazily on first use.
pub struct InitParams {
    /// Where the device's session state lives on disk.
    pub storage_dir: String,
    /// Whether the device has never completed pairing; cleared for all
    /// channels once pairing succeeds.
    pub first_time: bool,
}

impl InitParams {
    /// A field-for-field copy.
    pub fn duplicate(&self) -> (r: InitParams)
        ensures
            r.storage_dir@ == self.storage_dir@,
            r.first_time == self.first_time,
    {
        InitParams { storage_dir: self.storage_dir.clone(), first_time: self.first_time }
    }
}

/// What the registry tracks of one opaque secure session.
pub struct SessionModel {
    /// The name of the group this channel session belongs to, once pairing
    /// has completed.
    pub group_name: Option<String>,
}

/// One session slot: at most one live session, guarded by a lock with a
/// recorded holder.
pub struct Slot {
    pub device: String,
    pub channel: ChannelId,
    /// The live session's model, if the slot has been materialized.
    pub session: Option<SessionModel>,
    /// The label of the operation currently holding this slot's lock;
    /// diagnostic only, never used for correctness.
    pub locked_by: Option<String>,
}

/// How an acquisition attempt ended.
pub enum AcquireOutcome {
    /// The caller now holds the slot and its label is recorded.
    Acquired,
    /// Another operation holds the slot; its recorded label is echoed so
    /// contention can be diagnosed. The caller must not touch the session.
    Busy { holder: String },
}

/// How a slot's session is to be materialized on first use.
pub enum InitDecision {
    /// The slot already has a live session; keep it.
    AlreadyLive,
    /// No parameters were recorded for the device: the device was never
    /// initialized, so the operation fails.
    NoParams,
    /// Construct the session from the recorded parameters and install it.
    Construct { storage_dir: String, first_time: bool },
}

/// `s` is the slot for `(device, channel)`.
pub open spec fn slot_is_for(s: Slot, device: Seq<char>, channel: ChannelId) -> bool {
    s.device@ == device && s.channel == channel
}

/// The group the slot's session belongs to, if the slot has a live session
/// that completed pairing.
pub open spec fn slot_group(s: Slot) -> Option<Seq<char>> {
    match s.session {
        Some(m) => match m.group_name {
            Some(g) => Some(g@),
            None => None,
        },
        None => None,
    }
}

/// The registry of session slots and recorded initialization parameters.
pub struct ChannelLockRegistry {
    pub slots: Vec<Slot>,
    pub init_params: Vec<(String, InitParams)>,
}

impl ChannelLockRegistry {
    /// No two slots share a (device, channel) key, and no two recorded
    /// parameter entries share a device.
    pub open spec fn wf(self) -> bool {
        &&& forall|i: int, j: int|
            0 <= i < j < self.slots@.len() ==> !slot_is_for(
                #[trigger] self.slots@[i],
                #[trigger] self.slots@[j].device@,
                self.slots@[j].channel,
            )
        &&& forall|i: int, j: int|
            0 <= i < j < self.init_params@.len() ==> (#[trigger] self.init_params@[i].0@)
                != (#[trigger] self.init_params@[j].0@)
    }

    /// A slot for `(device, channel)` exists.
    pub open spec fn has_slot(self, device: Seq<char>, channel: ChannelId) -> bool {
        exists|i: int|
            0 <= i < self.slots@.len() && slot_is_for(#[trigger] self.slots@[i], device, channel)
    }

    /// The index of the slot for `(device, channel)`.
    pub open spec fn slot_index(self, device: Seq<char>, channel: ChannelId) -> int {
        choose|i: int|
            0 <= i < self.slots@.len() && slot_is_for(#[trigger] self.slots@[i], device, channel)
    }

    /// Parameters are recorded for `device`.
    pub open spec fn has_params(self, device: Seq<char>) -> bool {
        exists|i: int| 0 <= i < self.init_params@.len() && (#[trigger] self.init_params@[i].0@)
            == device
    }

    /// The index of the recorded parameters for `device`.
    pub open spec fn params_index(self, device: Seq<char>) -> int {
        choose|i: int|
            0 <= i < self.init_params@.len() && (#[trigger] self.init_params@[i].0@) == device
    }

    /// The parameters recorded for `device`.
    pub open spec fn params_of(self, device: Seq<char>) -> InitParams {
        self.init_params@[self.params_index(device)].1
    }

    /// Some channel of `device` has a live session that already belongs to a
    /// group: the device is active, and its name is taken.
    pub open spec fn device_active(self, device: Seq<char>) -> bool {
        exists|i: int|
            {
                &&& 0 <= i < self.slots@.len()
                &&& (#[trigger] self.slots@[i]).device@ == device
                &&& self.slots@[i].session matches Some(m) && m.group_name is Some
            }
    }

    /// An empty registry.
    pub fn new() -> (r: ChannelLockRegistry)
        ensures
            r.wf(),
            r.slots@.len() == 0,
            r.init_params@.len() == 0,
    {
        ChannelLockRegistry { slots: Vec::new(), init_params: Vec::new() }
    }

    /// The unique index of the slot for `(device, channel)`, if it exists.
    pub fn find_slot(&self, device: &String, channel: ChannelId) -> (r: Option<usize>)
        requires
            self.wf(),
        ensures
            match r {
                Some(i) => {
                    &&& self.has_slot(device@, channel)
                    &&& i < self.slots@.len()
                    &&& slot_is_for(self.slots@[i as int], device@, channel)
                    &&& i as int == self.slot_index(device@, channel)
                },
                None => !self.has_slot(device@, channel),
            },
    {
        let mut i: usize = 0;
        while i < self.slots.len()
            invariant
                self.wf(),
                i <= self.slots@.len(),
                forall|j: int|
                    0 <= j < i ==> !slot_is_for(#[trigger] self.slots@[j], device@, channel),
            decreases self.slots@.len() - i,
        {
            let s = &self.slots[i];
            if s.device == *device && s.channel == channel {
                proof {
                    self.lemma_slot_index(device@, channel, i as int);
                }
                return Some(i);
            }
            i = i + 1;
        }
        None
    }

    /// A slot for `(device, channel)` is the slot `slot_index` names.
    pub proof fn lemma_slot_index(self, device: Seq<char>, channel: ChannelId, i: int)
        requires
            self.wf(),
            0 <= i < self.slots@.len(),
            slot_is_for(self.slots@[i], device, channel),
        ensures
            self.has_slot(device, channel),
            self.slot_index(device, channel) == i,
    {
        assert(self.has_slot(device, channel));
        let k = self.slot_index(device, channel);
        assert(0 <= k < self.slots@.len() && slot_is_for(self.slots@[k], device, channel));
        self.lemma_slot_unique(device, channel, i, k);
    }

    /// Two slots for the same key are the same slot.
    pub proof fn lemma_slot_unique(self, device: Seq<char>, channel: ChannelId, i: int, j: int)
        requires
            self.wf(),
            0 <= i < self.slots@.len(),
            0 <= j < self.slots@.len(),
            slot_is_for(self.slots@[i], device, channel),
            slot_is_for(self.slots@[j], device, channel),
        ensures
            i == j,
    {
    }

    /// An entry whose key reads `device` is the entry `params_index` names.
    pub proof fn lemma_params_index(self, device: Seq<char>, i: int)
        requires
            self.wf(),
            0 <= i < self.init_params@.len(),
            self.init_params@[i].0@ == device,
        ensures
            self.has_params(device),
            self.params_index(device) == i,
    {
        assert(self.has_params(device));
        let k = self.params_index(device);
        assert(0 <= k < self.init_params@.len() && self.init_params@[k].0@ == device);
        if k < i {
            assert(self.init_params@[k].0@ != self.init_params@[i].0@);
        }
        if i < k {
            assert(self.init_params@[i].0@ != self.init_params@[k].0@);
        }
    }

    /// Resolves `(device, channel)` to its slot, creating the slot empty on
    /// first reference.
    ///
    /// Resolving a key that already has a slot returns that same slot and
    /// leaves the registry untouched, however many times it is repeated: all
    /// callers share exactly one underlying slot per key, and no duplicate is
    /// ever created. (Callers run serialized on the registry; see the module
    /// description.)
    pub fn resolve(&mut self, device: &String, channel: ChannelId) -> (idx: usize)
        requires
            old(self).wf(),
        ensures
            final(self).wf(),
            final(self).init_params@ == old(self).init_params@,
            idx < final(self).slots@.len(),
            slot_is_for(final(self).slots@[idx as int], device@, channel),
            final(self).has_slot(device@, channel),
            idx as int == final(self).slot_index(device@, channel),
            old(self).has_slot(device@, channel) ==> *final(self) == *old(self),
            !old(self).has_slot(device@, channel) ==> final(self).slots@ == old(self).slots@.push(
                Slot {
                    device: *device,
                    channel,
                    session: None::<SessionModel>,
                    locked_by: None::<String>,
                },
            ),
    {
        match self.find_slot(device, channel) {
            Some(i) => {
                proof {
                    assert(self.has_slot(device@, channel));
                }
                i
            },
            None => {
                let idx = self.slots.len();
                let fresh = Slot {
                    device: device.clone(),
                    channel,
                    session: None,
                    locked_by: None,
                };
                self.slots.push(fresh);
                proof {
                    assert forall|i: int, j: int| 0 <= i < j < self.slots@.len() implies !slot_is_for(
                        #[trigger] self.slots@[i],
                        #[trigger] self.slots@[j].device@,
                        self.slots@[j].channel,
                    ) by {
                        if j == self.slots@.len() - 1 {
                            assert(!slot_is_for(old(self).slots@[i], device@, channel));
                        }
                    }
                    self.lemma_slot_index(device@, channel, idx as int);
                }
                idx
            },
        }
    }

    /// Tries to take the slot's lock for the operation labelled `op_label`.
    /// A held slot answers `Busy` at once with the holder's label; the caller
    /// backs off (or retries until its timeout) instead of entering.
    pub fn acquire(&mut self, idx: usize, op_label: String) -> (r: AcquireOutcome)
        requires
            old(self).wf(),
            idx < old(self).slots@.len(),
        ensures
            final(self).wf(),
            match r {
                AcquireOutcome::Busy { holder } => {
                    &&& old(self).slots@[idx as int].locked_by == Some(holder)
                    &&& *final(self) == *old(self)
                },
                AcquireOutcome::Acquired => {
                    &&& old(self).slots@[idx as int].locked_by is None
                    &&& final(self).slots@ == old(self).slots@.update(
                        idx as int,
                        Slot { locked_by: Some(op_label), ..old(self).slots@[idx as int] },
                    )
                    &&& final(self).init_params@ == old(self).init_params@
                },
            },
    {
        match &self.slots[idx].locked_by {
            Some(holder) => {
                let h = holder.clone();
                AcquireOutcome::Busy { holder: h }
            },
            None => {
                let ghost pre = self.slots@;
                let slot = &mut self.slots[idx];
                slot.locked_by = Some(op_label);
                proof {
                    assert(self.slots@ =~= pre.update(
                        idx as int,
                        Slot { locked_by: self.slots@[idx as int].locked_by, ..pre[idx as int] },
                    ));
                    assert forall|i: int, j: int| 0 <= i < j < self.slots@.len() implies !slot_is_for(
                        #[trigger] self.slots@[i],
                        #[trigger] self.slots@[j].device@,
                        self.slots@[j].channel,
                    ) by {
                        assert(slot_is_for(pre[i], pre[j].device@, pre[j].channel) == slot_is_for(
                            self.slots@[i],
                            self.slots@[j].device@,
                            self.slots@[j].channel,
                        ));
                    }
                }
                AcquireOutcome::Acquired
            },
        }
    }

    /// Releases the slot's lock and clears the recorded holder. Runs on every
    /// exit path of an operation, error paths included.
    pub fn release(&mut self, idx: usize)
        requires
            old(self).wf(),
            idx < old(self).slots@.len(),
        ensures
            final(self).wf(),
            final(self).slots@ == old(self).slots@.update(
                idx as int,
                Slot { locked_by: None::<String>, ..old(self).slots@[idx as int] },
            ),
            final(self).init_params@ == old(self).init_params@,
    {
        let ghost pre = self.slots@;
        let slot = &mut self.slots[idx];
        slot.locked_by = None;
        proof {
            assert(self.slots@ =~= pre.update(
                idx as int,
                Slot { locked_by: None::<String>, ..pre[idx as int] },
            ));
            assert forall|i: int, j: int| 0 <= i < j < self.slots@.len() implies !slot_is_for(
                #[trigger] self.slots@[i],
                #[trigger] self.slots@[j].device@,
                self.slots@[j].channel,
            ) by {
                assert(slot_is_for(pre[i], pre[j].device@, pre[j].channel) == slot_is_for(
                    self.slots@[i],
                    self.slots@[j].device@,
                    self.slots@[j].channel,
                ));
            }
        }
    }

    /// Records (or replaces) the initialization parameters for `device`.
    pub fn record_params(&mut self, device: &String, params: InitParams)
        requires
            old(self).wf(),
        ensures
            final(self).wf(),
            final(self).slots@ == old(self).slots@,
            final(self).has_params(device@),
            final(self).params_of(device@) == params,
            forall|d: Seq<char>|
                d != device@ ==> #[trigger] final(self).has_params(d) == old(self).has_params(d),
            forall|i: int|
                0 <= i < final(self).init_params@.len() && (
                #[trigger] final(self).init_params@[i].0@) != device@ ==> {
                    &&& 0 <= i < old(self).init_params@.len()
                    &&& final(self).init_params@[i] == old(self).init_params@[i]
                },
    {
        let mut i: usize = 0;
        while i < self.init_params.len()
            invariant
                self.wf(),
                *self == *old(self),
                i <= self.init_params@.len(),
                forall|j: int| 0 <= j < i ==> (#[trigger] self.init_params@[j].0@) != device@,
            decreases self.init_params@.len() - i,
        {
            if self.init_params[i].0 == *device {
                let ghost pre = *self;
                let key = self.init_params[i].0.clone();
                self.init_params.set(i, (key, params));
                proof {
                    assert forall|a: int, b: int|
                        0 <= a < b < self.init_params@.len() implies (
                    #[trigger] self.init_params@[a].0@) != (
                    #[trigger] self.init_params@[b].0@) by {
                        assert(self.init_params@[a].0@ == pre.init_params@[a].0@);
                        assert(self.init_params@[b].0@ == pre.init_params@[b].0@);
                    }
                    self.lemma_params_index(device@, i as int);
                    assert forall|d: Seq<char>| d != device@ implies #[trigger] self.has_params(d)
                        == pre.has_params(d) by {
                        assert forall|j: int|
                            0 <= j < self.init_params@.len() implies (
                        #[trigger] self.init_params@[j].0@) == pre.init_params@[j].0@ by {}
                        if self.has_params(d) {
                            let w = choose|j: int|
                                0 <= j < self.init_params@.len() && (
                                #[trigger] self.init_params@[j].0@) == d;
                            assert(pre.init_params@[w].0@ == d);
                        }
                        if pre.has_params(d) {
                            let w = choose|j: int|
                                0 <= j < pre.init_params@.len() && (
                                #[trigger] pre.init_params@[j].0@) == d;
                            assert(self.init_params@[w].0@ == d);
                        }
                    }
                }
                return ;
            }
            i = i + 1;
        }
        let ghost pre = *self;
        self.init_params.push((device.clone(), params));
        proof {
            let n = self.init_params@.len() - 1;
            assert forall|a: int, b: int|
                0 <= a < b < self.init_params@.len() implies (
            #[trigger] self.init_params@[a].0@) != (#[trigger] self.init_params@[b].0@) by {
                if b < n {
                    assert(self.init_params@[a].0@ == pre.init_params@[a].0@);
                    assert(self.init_params@[b].0@ == pre.init_params@[b].0@);
                } else {
                    assert(self.init_params@[b].0@ == device@);
                    assert(self.init_params@[a].0@ == pre.init_params@[a].0@);
                }
            }
            self.lemma_params_index(device@, n);
            assert forall|d: Seq<char>| d != device@ implies #[trigger] self.has_params(d)
                == pre.has_params(d) by {
                if self.has_params(d) {
                    let w = choose|j: int|
                        0 <= j < self.init_params@.len() && (#[trigger] self.init_params@[j].0@)
                            == d;
                    assert(w != n);
                    assert(pre.init_params@[w].0@ == d);
                }
                if pre.has_params(d) {
                    let w = choose|j: int|
                        0 <= j < pre.init_params@.len() && (#[trigger] pre.init_params@[j].0@)
                            == d;
                    assert(self.init_params@[w].0@ == d);
                }
            }
        }
    }

    /// The recorded parameters for `device`, if any.
    pub fn lookup_params(&self, device: &String) -> (r: Option<&InitParams>)
        requires
            self.wf(),
        ensures
            match r {
                Some(p) => self.has_params(device@) && *p == self.params_of(device@),
                None => !self.has_params(device@),
            },
    {
        let mut i: usize = 0;
        while i < self.init_params.len()
            invariant
                self.wf(),
                i <= self.init_params@.len(),
                forall|j: int| 0 <= j < i ==> (#[trigger] self.init_params@[j].0@) != device@,
            decreases self.init_params@.len() - i,
        {
            if self.init_params[i].0 == *device {
                proof {
                    self.lemma_params_index(device@, i as int);
                }
                return Some(&self.init_params[i].1);
            }
            i = i + 1;
        }
        None
    }


    /// How a slot's session is to be materialized, decided while the caller
    /// holds the slot's lock.
    pub fn init_decision(&self, idx: usize) -> (r: InitDecision)
        requires
            self.wf(),
            idx < self.slots@.len(),
        ensures
            match r {
                InitDecision::AlreadyLive => self.slots@[idx as int].session is Some,
                InitDecision::NoParams => {
                    &&& self.slots@[idx as int].session is None
                    &&& !self.has_params(self.slots@[idx as int].device@)
                },
                InitDecision::Construct { storage_dir, first_time } => {
                    &&& self.slots@[idx as int].session is None
                    &&& self.has_params(self.slots@[idx as int].device@)
                    &&& storage_dir@ == self.params_of(
                        self.slots@[idx as int].device@,
                    ).storage_dir@
                    &&& first_time == self.params_of(self.slots@[idx as int].device@).first_time
                },
            },
    {
        if self.slots[idx].session.is_some() {
            return InitDecision::AlreadyLive;
        }
        let device = self.slots[idx].device.clone();
        match self.lookup_params(&device) {
            None => InitDecision::NoParams,
            Some(p) => {
                let p2 = p.duplicate();
                InitDecision::Construct { storage_dir: p2.storage_dir, first_time: p2.first_time }
            },
        }
    }

    /// Records what the application's live session for the slot now is:
    /// freshly materialized (no group yet) or a member of `group_name`.
    /// Called while holding the slot's lock.
    pub fn set_session_model(&mut self, idx: usize, group_name: Option<String>)
        requires
            old(self).wf(),
            idx < old(self).slots@.len(),
        ensures
            final(self).wf(),
            final(self).slots@ == old(self).slots@.update(
                idx as int,
                Slot {
                    session: Some(SessionModel { group_name }),
                    ..old(self).slots@[idx as int]
                },
            ),
            final(self).init_params@ == old(self).init_params@,
    {
        let ghost pre = self.slots@;
        let slot = &mut self.slots[idx];
        slot.session = Some(SessionModel { group_name });
        proof {
            assert(self.slots@ =~= pre.update(
                idx as int,
                Slot { session: self.slots@[idx as int].session, ..pre[idx as int] },
            ));
            assert forall|i: int, j: int| 0 <= i < j < self.slots@.len() implies !slot_is_for(
                #[trigger] self.slots@[i],
                #[trigger] self.slots@[j].device@,
                self.slots@[j].channel,
            ) by {
                assert(slot_is_for(pre[i], pre[j].device@, pre[j].channel) == slot_is_for(
                    self.slots@[i],
                    self.slots@[j].device@,
                    self.slots@[j].channel,
                ));
            }
        }
    }

    /// Tears the slot's session down, leaving the slot empty. Called while
    /// holding the slot's lock, after the application ran the session's
    /// cleanup inside its own fault boundary.
    pub fn clear_session(&mut self, idx: usize)
        requires
            old(self).wf(),
            idx < old(self).slots@.len(),
        ensures
            final(self).wf(),
            final(self).slots@ == old(self).slots@.update(
                idx as int,
                Slot { session: None::<SessionModel>, ..old(self).slots@[idx as int] },
            ),
            final(self).init_params@ == old(self).init_params@,
    {
        let ghost pre = self.slots@;
        let slot = &mut self.slots[idx];
        slot.session = None;
        proof {
            assert(self.slots@ =~= pre.update(
                idx as int,
                Slot { session: None::<SessionModel>, ..pre[idx as int] },
            ));
            assert forall|i: int, j: int| 0 <= i < j < self.slots@.len() implies !slot_is_for(
                #[trigger] self.slots@[i],
                #[trigger] self.slots@[j].device@,
                self.slots@[j].channel,
            ) by {
                assert(slot_is_for(pre[i], pre[j].device@, pre[j].channel) == slot_is_for(
                    self.slots@[i],
                    self.slots@[j].device@,
                    self.slots@[j].channel,
                ));
            }
        }
    }

    /// Drops every slot of `device` and its recorded parameters. The rest of
    /// the registry keeps its order. Run after per-channel cleanup; the
    /// application never holds more than one slot lock while cleaning, so
    /// deregistration cannot deadlock against single-channel operations.
    pub fn remove_device(&mut self, device: &String)
        requires
            old(self).wf(),
        ensures
            final(self).wf(),
            final(self).slots@ == old(self).slots@.filter(|s: Slot| s.device@ != device@),
            final(self).init_params@ == old(self).init_params@.filter(
                |p: (String, InitParams)| p.0@ != device@,
            ),
            forall|c: ChannelId| !final(self).has_slot(device@, c),
            !final(self).has_params(device@),
    {
        let ghost slot_pred = |s: Slot| s.device@ != device@;
        let ghost orig_slots = self.slots@;
        let mut i: usize = 0;
        let ghost mut k: int = 0;
        while i < self.slots.len()
            invariant
                slot_pred == (|s: Slot| s.device@ != device@),
                0 <= k <= orig_slots.len(),
                i as int == orig_slots.subrange(0, k).filter(slot_pred).len(),
                self.slots@ =~= orig_slots.subrange(0, k).filter(slot_pred) + orig_slots.skip(k),
                self.init_params@ == old(self).init_params@,
                forall|a: int, b: int|
                    0 <= a < b < self.slots@.len() ==> !slot_is_for(
                        #[trigger] self.slots@[a],
                        #[trigger] self.slots@[b].device@,
                        self.slots@[b].channel,
                    ),
                forall|a: int, b: int|
                    0 <= a < b < self.init_params@.len() ==> (
                    #[trigger] self.init_params@[a].0@) != (#[trigger] self.init_params@[b].0@),
            decreases self.slots@.len() - i,
        {
            proof {
                reveal(Seq::filter);
                assert(orig_slots.subrange(0, k + 1).drop_last() =~= orig_slots.subrange(0, k));
                assert(orig_slots.subrange(0, k + 1).last() == orig_slots[k]);
                assert(self.slots@[i as int] == orig_slots[k]);
            }
            if self.slots[i].device == *device {
                let ghost pre = self.slots@;
                self.slots.remove(i);
                proof {
                    assert(!slot_pred(orig_slots[k]));
                    assert(orig_slots.subrange(0, k + 1).filter(slot_pred) =~= orig_slots.subrange(
                        0,
                        k,
                    ).filter(slot_pred));
                    assert(self.slots@ =~= orig_slots.subrange(0, k + 1).filter(slot_pred)
                        + orig_slots.skip(k + 1)) by {
                        assert(pre.remove(i as int) =~= orig_slots.subrange(0, k).filter(slot_pred)
                            + orig_slots.skip(k).drop_first());
                        assert(orig_slots.skip(k).drop_first() =~= orig_slots.skip(k + 1));
                    }
                    assert forall|a: int, b: int|
                        0 <= a < b < self.slots@.len() implies !slot_is_for(
                        #[trigger] self.slots@[a],
                        #[trigger] self.slots@[b].device@,
                        self.slots@[b].channel,
                    ) by {
                        let a2 = if a < i as int { a } else { a + 1 };
                        let b2 = if b < i as int { b } else { b + 1 };
                        assert(self.slots@[a] == pre[a2]);
                        assert(self.slots@[b] == pre[b2]);
                    }
                    k = k + 1;
                }
            } else {
                proof {
                    assert(slot_pred(orig_slots[k]));
                    assert(orig_slots.subrange(0, k + 1).filter(slot_pred) =~= orig_slots.subrange(
                        0,
                        k,
                    ).filter(slot_pred).push(orig_slots[k]));
                    assert(self.slots@ =~= orig_slots.subrange(0, k + 1).filter(slot_pred)
                        + orig_slots.skip(k + 1)) by {
                        assert(orig_slots.skip(k).drop_first() =~= orig_slots.skip(k + 1));
                        assert(orig_slots.skip(k)[0] == orig_slots[k]);
                    }
                    k = k + 1;
                }
                i = i + 1;
            }
        }
        proof {
            assert(k == orig_slots.len());
            assert(orig_slots.subrange(0, k) =~= orig_slots);
            assert(orig_slots.skip(k) =~= Seq::<Slot>::empty());
            assert(self.slots@ =~= orig_slots.filter(slot_pred));
        }
        let ghost param_pred = |p: (String, InitParams)| p.0@ != device@;
        let ghost orig_params = self.init_params@;
        let mut j: usize = 0;
        let ghost mut m: int = 0;
        while j < self.init_params.len()
            invariant
                param_pred == (|p: (String, InitParams)| p.0@ != device@),
                0 <= m <= orig_params.len(),
                j as int == orig_params.subrange(0, m).filter(param_pred).len(),
                self.init_params@ =~= orig_params.subrange(0, m).filter(param_pred)
                    + orig_params.skip(m),
                self.slots@ == orig_slots.filter(slot_pred),
                forall|a: int, b: int|
                    0 <= a < b < self.slots@.len() ==> !slot_is_for(
                        #[trigger] self.slots@[a],
                        #[trigger] self.slots@[b].device@,
                        self.slots@[b].channel,
                    ),
                forall|a: int, b: int|
                    0 <= a < b < self.init_params@.len() ==> (
                    #[trigger] self.init_params@[a].0@) != (#[trigger] self.init_params@[b].0@),
            decreases self.init_params@.len() - j,
        {
            proof {
                reveal(Seq::filter);
                assert(orig_params.subrange(0, m + 1).drop_last() =~= orig_params.subrange(0, m));
                assert(orig_params.subrange(0, m + 1).last() == orig_params[m]);
                assert(self.init_params@[j as int] == orig_params[m]);
            }
            if self.init_params[j].0 == *device {
                let ghost pre = self.init_params@;
                self.init_params.remove(j);
                proof {
                    assert(!param_pred(orig_params[m]));
                    assert(orig_params.subrange(0, m + 1).filter(param_pred)
                        =~= orig_params.subrange(0, m).filter(param_pred));
                    assert(self.init_params@ =~= orig_params.subrange(0, m + 1).filter(param_pred)
                        + orig_params.skip(m + 1)) by {
                        assert(pre.remove(j as int) =~= orig_params.subrange(0, m).filter(
                            param_pred,
                        ) + orig_params.skip(m).drop_first());
                        assert(orig_params.skip(m).drop_first() =~= orig_params.skip(m + 1));
                    }
                    assert forall|a: int, b: int|
                        0 <= a < b < self.init_params@.len() implies (
                    #[trigger] self.init_params@[a].0@) != (
                    #[trigger] self.init_params@[b].0@) by {
                        let a2 = if a < j as int { a } else { a + 1 };
                        let b2 = if b < j as int { b } else { b + 1 };
                        assert(self.init_params@[a] == pre[a2]);
                        assert(self.init_params@[b] == pre[b2]);
                    }
                    m = m + 1;
                }
            } else {
                proof {
                    assert(param_pred(orig_params[m]));
                    assert(orig_params.subrange(0, m + 1).filter(param_pred)
                        =~= orig_params.subrange(0, m).filter(param_pred).push(orig_params[m]));
                    assert(self.init_params@ =~= orig_params.subrange(0, m + 1).filter(param_pred)
                        + orig_params.skip(m + 1)) by {
                        assert(orig_params.skip(m).drop_first() =~= orig_params.skip(m + 1));
                        assert(orig_params.skip(m)[0] == orig_params[m]);
                    }
                    m = m + 1;
                }
                j = j + 1;
            }
        }
        proof {
            assert(m == orig_params.len());
            assert(orig_params.subrange(0, m) =~= orig_params);
            assert(orig_params.skip(m) =~= Seq::<(String, InitParams)>::empty());
            assert(self.init_params@ =~= orig_params.filter(param_pred));
            assert forall|c: ChannelId| !self.has_slot(device@, c) by {
                if self.has_slot(device@, c) {
                    let w = choose|w: int|
                        0 <= w < self.slots@.len() && slot_is_for(
                            #[trigger] self.slots@[w],
                            device@,
                            c,
                        );
                    orig_slots.lemma_filter_pred(slot_pred, w);
                }
            }
            if self.has_params(device@) {
                let w = choose|w: int|
                    0 <= w < self.init_params@.len() && (#[trigger] self.init_params@[w].0@)
                        == device@;
                orig_params.lemma_filter_pred(param_pred, w);
            }
        }
    }

    /// The group name recorded for `(device, channel)`'s session, if its
    /// slot exists, is materialized, and has completed pairing.
    pub fn group_name_of(&self, device: &String, channel: ChannelId) -> (r: Option<String>)
        requires
            self.wf(),
        ensures
            match r {
                Some(g) => {
                    &&& self.has_slot(device@, channel)
                    &&& slot_group(self.slots@[self.slot_index(device@, channel)]) == Some(g@)
                },
                None => !self.has_slot(device@, channel) || slot_group(
                    self.slots@[self.slot_index(device@, channel)],
                ) is None,
            },
    {
        match self.find_slot(device, channel) {
            None => None,
            Some(i) => {
                proof {
                    self.lemma_slot_index(device@, channel, i as int);
                }
                match &self.slots[i].session {
                    Some(m) => match &m.group_name {
                        Some(g) => Some(g.clone()),
                        None => None,
                    },
                    None => None,
                }
            },
        }
    }

    /// The device's name is taken: some channel of it already has a session
    /// in a group.
    pub fn is_device_active(&self, device: &String) -> (r: bool)
        ensures
            r == self.device_active(device@),
    {
        let mut i: usize = 0;
        while i < self.slots.len()
            invariant
                i <= self.slots@.len(),
                forall|j: int|
                    0 <= j < i ==> !{
                        &&& (#[trigger] self.slots@[j]).device@ == device@
                        &&& self.slots@[j].session matches Some(m) && m.group_name is Some
                    },
            decreases self.slots@.len() - i,
        {
            let s = &self.slots[i];
            if s.device == *device {
                match &s.session {
                    Some(m) => {
                        if m.group_name.is_some() {
                            return true;
                        }
                    },
                    None => {},
                }
            }
            i = i + 1;
        }
        false
    }
}

} // verus!
