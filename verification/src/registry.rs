//! The supervisor's table of registered agents and its liveness sweep.
//!
//! An agent registers once and is then probed on every sweep. A sweep has
//! three phases: `begin_sweep` hands out one probe per live target;
//! `probe_resolved` records how a probe ended, and `expire_probes` fails
//! the probes that got no answer in time; `finish_sweep` evicts in one
//! batch every target whose probe failed. Nothing is removed while probes
//! are still in flight.
//!
//! The registry reads no clock. Its callers pass the time, in
//! milliseconds.

use vstd::prelude::*;

verus! {

/// Time a liveness probe may take before it counts as failed.
pub const PROBE_TIMEOUT_MS: u64 = 250;

/// Time between the starts of two sweeps.
pub const SWEEP_INTERVAL_MS: u64 = 1000;

/// Identifier the registry assigns to a target when it registers.
#[derive(Clone, Copy, Debug, PartialEq, Eq, Structural)]
pub struct TargetId(pub u64);

/// Address of a remotely-invokable object in the transport's capability
/// table. The library carries it and never looks inside.
#[derive(Clone, Copy, Debug, PartialEq, Eq, Structural)]
pub struct Capability(pub u64);

/// What the registry currently believes about a target.
#[derive(Clone, Copy, Debug, PartialEq, Eq, Structural)]
pub enum Liveness {
    /// The last probe was answered, or the target has just registered.
    Alive,
    /// A probe is in flight.
    PendingCheck,
    /// The last probe failed; the target leaves at the end of the sweep.
    Dead,
}

/// How a liveness probe ended.
#[derive(Clone, Copy, Debug, PartialEq, Eq, Structural)]
pub enum ProbeOutcome {
    /// The agent answered within the timeout.
    Responded,
    /// No answer arrived within the timeout.
    TimedOut,
    /// The call returned an error.
    Failed,
    /// The transport reported the connection closed.
    Closed,
}

/// Why a registration was refused.
#[derive(Clone, Copy, Debug, PartialEq, Eq, Structural)]
pub enum RegistryError {
    /// The process id is zero or the executable path is empty.
    MalformedRequest,
    /// Every identifier has been handed out.
    IdentifiersExhausted,
}

/// One registered agent.
#[derive(Debug)]
pub struct TargetHandle {
    pub id: TargetId,
    pub pid: u64,
    pub exe: String,
    pub target: Capability,
    pub liveness: Liveness,
    /// When the target registered or last answered a probe.
    pub last_heartbeat: u64,
    /// When the probe in flight fails for want of an answer. It means
    /// something only while a probe is in flight.
    pub probe_deadline: u64,
}

/// The mathematical content of a `TargetHandle`.
pub struct TargetRecord {
    pub id: TargetId,
    pub pid: u64,
    pub exe: Seq<char>,
    pub target: Capability,
    pub liveness: Liveness,
    pub last_heartbeat: u64,
    pub probe_deadline: u64,
}

impl View for TargetHandle {
    type V = TargetRecord;

    open spec fn view(&self) -> TargetRecord {
        TargetRecord {
            id: self.id,
            pid: self.pid,
            exe: self.exe@,
            target: self.target,
            liveness: self.liveness,
            last_heartbeat: self.last_heartbeat,
            probe_deadline: self.probe_deadline,
        }
    }
}

/// A liveness probe the caller has to issue.
#[derive(Clone, Copy, Debug, PartialEq, Eq, Structural)]
pub struct Probe {
    pub target: TargetId,
    pub capability: Capability,
    pub timeout_ms: u64,
}

/// When a probe that is issued at `start` fails for want of an answer.
pub open spec fn deadline_of(start: u64) -> u64 {
    if start + PROBE_TIMEOUT_MS > u64::MAX {
        u64::MAX
    } else {
        (start + PROBE_TIMEOUT_MS) as u64
    }
}

/// The record as it stands once a sweep has begun: a live target awaits
/// the answer to its probe until `deadline`.
pub open spec fn mark_pending(r: TargetRecord, deadline: u64) -> TargetRecord {
    if r.liveness is Alive {
        TargetRecord { liveness: Liveness::PendingCheck, probe_deadline: deadline, ..r }
    } else {
        r
    }
}

/// The probe that `begin_sweep` issues for a record, if any.
pub open spec fn probe_for(r: TargetRecord) -> Option<Probe> {
    if r.liveness is Alive {
        Some(Probe { target: r.id, capability: r.target, timeout_ms: PROBE_TIMEOUT_MS })
    } else {
        None
    }
}

/// The record after a probe for target `id` ended with `outcome` at `now`.
/// Only a record that awaits a probe changes.
pub open spec fn settle(r: TargetRecord, id: TargetId, outcome: ProbeOutcome, now: u64)
    -> TargetRecord {
    if r.id == id && r.liveness is PendingCheck {
        if outcome is Responded {
            TargetRecord { liveness: Liveness::Alive, last_heartbeat: now, ..r }
        } else {
            TargetRecord { liveness: Liveness::Dead, ..r }
        }
    } else {
        r
    }
}

/// The probe of the record is in flight and its time is up at `now`.
pub open spec fn overdue(r: TargetRecord, now: u64) -> bool {
    r.liveness is PendingCheck && r.probe_deadline <= now
}

/// The record at `now`: a probe whose time is up has failed.
pub open spec fn lapse(r: TargetRecord, now: u64) -> TargetRecord {
    if overdue(r, now) {
        TargetRecord { liveness: Liveness::Dead, ..r }
    } else {
        r
    }
}

/// The identifier of a record whose probe's time is up at `now`.
pub open spec fn lapsed_id(r: TargetRecord, now: u64) -> Option<TargetId> {
    if overdue(r, now) {
        Some(r.id)
    } else {
        None
    }
}

/// Whether a record survives the end of a sweep.
pub open spec fn survives(r: TargetRecord) -> bool {
    !(r.liveness is Dead)
}

/// A target that the end of a sweep evicted, with the capability that its
/// agent registered with, for the caller to let go of.
#[derive(Clone, Copy, Debug, PartialEq, Eq, Structural)]
pub struct Evicted {
    pub target: TargetId,
    pub capability: Capability,
}

/// What the end of a sweep reports of a record that it evicts.
pub open spec fn evicted_of(r: TargetRecord) -> Option<Evicted> {
    if r.liveness is Dead {
        Some(Evicted { target: r.id, capability: r.target })
    } else {
        None
    }
}

/// The registry as a sequence of records in order of registration, the
/// number of identifiers handed out so far, and the time at which the last
/// sweep began.
pub struct RegistryModel {
    pub entries: Seq<TargetRecord>,
    pub minted: nat,
    pub last_sweep: Option<u64>,
}

impl RegistryModel {
    /// A registry without targets, before its first sweep.
    pub open spec fn empty() -> RegistryModel {
        RegistryModel { entries: Seq::empty(), minted: 0, last_sweep: None }
    }

    /// The time by which every probe in flight has failed or been
    /// answered.
    pub open spec fn horizon(self) -> u64 {
        match self.last_sweep {
            Some(start) => deadline_of(start),
            None => 0,
        }
    }

    /// Identifiers grow along the table and all lie below `minted`, and no
    /// probe is in flight beyond the horizon.
    pub open spec fn wf(self) -> bool {
        &&& forall|i: int, j: int|
            0 <= i < j < self.entries.len() ==> self.entries[i].id.0 < self.entries[j].id.0
        &&& forall|i: int|
            0 <= i < self.entries.len() ==> (#[trigger] self.entries[i]).id.0 < self.minted
        &&& forall|i: int|
            0 <= i < self.entries.len() && (#[trigger] self.entries[i]).liveness is PendingCheck
                ==> self.entries[i].probe_deadline <= self.horizon()
    }

    /// A target is registered under `id`.
    pub open spec fn contains(self, id: TargetId) -> bool {
        exists|i: int| 0 <= i < self.entries.len() && (#[trigger] self.entries[i]).id == id
    }

    /// The record registered under `id`, if there is one.
    pub open spec fn lookup(self, id: TargetId) -> Option<TargetRecord> {
        if self.contains(id) {
            Some(
                self.entries[choose|i: int|
                    0 <= i < self.entries.len() && (#[trigger] self.entries[i]).id == id],
            )
        } else {
            None
        }
    }

    /// The entry at `i` is the first that holds the capability.
    pub open spec fn first_holding(self, capability: Capability, i: int) -> bool {
        &&& 0 <= i < self.entries.len()
        &&& self.entries[i].target == capability
        &&& forall|j: int| 0 <= j < i ==> (#[trigger] self.entries[j]).target != capability
    }

    /// The target that registered with the capability: the first, where
    /// several did.
    pub open spec fn holder(self, capability: Capability) -> Option<TargetId> {
        if exists|i: int| self.first_holding(capability, i) {
            Some(self.entries[choose|i: int| self.first_holding(capability, i)].id)
        } else {
            None
        }
    }

    /// A request names a process and its executable.
    pub open spec fn well_formed_request(exe: Seq<char>, pid: u64) -> bool {
        pid != 0 && exe.len() > 0
    }

    /// The registry after a registration: the new target stands last and
    /// has the next identifier.
    pub open spec fn register(self, exe: Seq<char>, pid: u64, target: Capability, now: u64)
        -> RegistryModel {
        RegistryModel {
            entries: self.entries.push(
                TargetRecord {
                    id: TargetId(self.minted as u64),
                    pid,
                    exe,
                    target,
                    liveness: Liveness::Alive,
                    last_heartbeat: now,
                    probe_deadline: 0,
                },
            ),
            minted: self.minted + 1,
            ..self
        }
    }

    /// Whether the next sweep is due at `now`: none has begun yet, or the
    /// last one began a sweep interval ago or longer.
    pub open spec fn sweep_due(self, now: u64) -> bool {
        match self.last_sweep {
            Some(start) => now - start >= SWEEP_INTERVAL_MS,
            None => true,
        }
    }

    /// The time at which a sweep begins that is asked for at `now`: the
    /// registry's clock does not run backwards, so a sweep does not begin
    /// before the one before it.
    pub open spec fn sweep_time(self, now: u64) -> u64 {
        match self.last_sweep {
            Some(start) => if start > now {
                start
            } else {
                now
            },
            None => now,
        }
    }

    /// The registry after a sweep has begun: every live target awaits the
    /// answer to its probe.
    pub open spec fn begin_sweep(self, now: u64) -> RegistryModel {
        RegistryModel {
            entries: self.entries.map_values(
                |r: TargetRecord| mark_pending(r, deadline_of(self.sweep_time(now))),
            ),
            last_sweep: Some(self.sweep_time(now)),
            ..self
        }
    }

    /// The probes that `begin_sweep` issues, in table order.
    pub open spec fn probes(self) -> Seq<Probe> {
        self.entries.filter_map(|r: TargetRecord| probe_for(r))
    }

    /// The registry after the probe for `id` ended with `outcome` at `now`.
    pub open spec fn resolve(self, id: TargetId, outcome: ProbeOutcome, now: u64)
        -> RegistryModel {
        RegistryModel {
            entries: self.entries.map_values(|r: TargetRecord| settle(r, id, outcome, now)),
            ..self
        }
    }

    /// The registry at `now`: the probes whose time is up have failed.
    pub open spec fn expire(self, now: u64) -> RegistryModel {
        RegistryModel { entries: self.entries.map_values(|r: TargetRecord| lapse(r, now)), ..self }
    }

    /// The targets whose probes' time is up at `now`, in table order.
    pub open spec fn lapsed(self, now: u64) -> Seq<TargetId> {
        self.entries.filter_map(|r: TargetRecord| lapsed_id(r, now))
    }

    /// A probe for `id` is in flight.
    pub open spec fn awaits(self, id: TargetId) -> bool {
        exists|i: int|
            0 <= i < self.entries.len() && (#[trigger] self.entries[i]).id == id
                && self.entries[i].liveness is PendingCheck
    }

    /// No probe is in flight.
    pub open spec fn settled(self) -> bool {
        forall|i: int|
            0 <= i < self.entries.len() ==> !((#[trigger] self.entries[i]).liveness
                is PendingCheck)
    }

    /// The registry after the end of a sweep: the dead have left, the others
    /// stand in the order they had.
    pub open spec fn finish(self) -> RegistryModel {
        RegistryModel { entries: self.entries.filter(|r: TargetRecord| survives(r)), ..self }
    }

    /// The targets that `finish` removes, in table order.
    pub open spec fn evicted(self) -> Seq<Evicted> {
        self.entries.filter_map(|r: TargetRecord| evicted_of(r))
    }
}

/// The table of registered agents.
pub struct TargetRegistry {
    entries: Vec<TargetHandle>,
    next_id: u64,
    last_sweep: Option<u64>,
}

impl View for TargetRegistry {
    type V = RegistryModel;

    closed spec fn view(&self) -> RegistryModel {
        RegistryModel {
            entries: self.entries@.map_values(|h: TargetHandle| h@),
            minted: self.next_id as nat,
            last_sweep: self.last_sweep,
        }
    }
}

impl TargetRegistry {
    /// The table is well formed.
    pub open spec fn wf(&self) -> bool {
        self@.wf()
    }

    /// A registry without targets.
    pub fn new() -> (r: TargetRegistry)
        ensures
            r.wf(),
            r@ == RegistryModel::empty(),
    {
        let r = TargetRegistry { entries: Vec::new(), next_id: 0, last_sweep: None };
        assert(r@.entries =~= Seq::<TargetRecord>::empty());
        r
    }

    /// Number of registered targets.
    pub fn len(&self) -> (n: usize)
        ensures
            n == self@.entries.len(),
    {
        self.entries.len()
    }

    /// Number of identifiers handed out since the registry was made.
    pub fn minted(&self) -> (n: u64)
        ensures
            n == self@.minted,
    {
        self.next_id
    }

    /// When the last sweep began.
    pub fn last_sweep(&self) -> (t: Option<u64>)
        ensures
            t == self@.last_sweep,
    {
        self.last_sweep
    }

    fn index_of(&self, id: TargetId) -> (r: Option<usize>)
        ensures
            match r {
                Some(i) => i < self.entries.len() && self.entries[i as int].id == id,
                None => !self@.contains(id),
            },
    {
        let mut i: usize = 0;
        while i < self.entries.len()
            invariant
                i <= self.entries.len(),
                forall|j: int| 0 <= j < i ==> self.entries[j].id != id,
            decreases self.entries.len() - i,
        {
            if self.entries[i].id == id {
                return Some(i);
            }
            i += 1;
        }
        assert forall|j: int| 0 <= j < self@.entries.len() implies (#[trigger] self@.entries[j]).id
            != id by {
            assert(self@.entries[j] == self.entries[j]@);
        }
        None
    }

    /// Whether a target is registered under `id`.
    pub fn contains(&self, id: TargetId) -> (b: bool)
        ensures
            b == self@.contains(id),
    {
        match self.index_of(id) {
            Some(i) => {
                assert(self@.entries[i as int] == self.entries[i as int]@);
                true
            },
            None => false,
        }
    }

    /// The handle registered under `id`.
    pub fn get(&self, id: TargetId) -> (r: Option<&TargetHandle>)
        requires
            self.wf(),
        ensures
            match r {
                Some(h) => self@.lookup(id) == Some(h@),
                None => self@.lookup(id).is_none(),
            },
    {
        match self.index_of(id) {
            Some(i) => {
                proof {
                    assert(self@.entries[i as int] == self.entries[i as int]@);
                    let c = choose|c: int|
                        0 <= c < self@.entries.len() && (#[trigger] self@.entries[c]).id == id;
                    assert(c == i) by {
                        if c < i {
                            assert(self@.entries[c].id.0 < self@.entries[i as int].id.0);
                        }
                        if c > i {
                            assert(self@.entries[i as int].id.0 < self@.entries[c].id.0);
                        }
                    }
                }
                Some(&self.entries[i])
            },
            None => None,
        }
    }

    /// The target that registered with the capability.
    pub fn holder(&self, capability: Capability) -> (r: Option<TargetId>)
        ensures
            r == self@.holder(capability),
    {
        let mut i: usize = 0;
        while i < self.entries.len()
            invariant
                i <= self.entries.len(),
                forall|j: int| 0 <= j < i ==> self.entries[j].target != capability,
            decreases self.entries.len() - i,
        {
            if self.entries[i].target == capability {
                proof {
                    assert forall|j: int| 0 <= j < i implies (#[trigger] self@.entries[j]).target
                        != capability by {
                        assert(self@.entries[j] == self.entries[j]@);
                    }
                    assert(self@.entries[i as int] == self.entries[i as int]@);
                    assert(self@.first_holding(capability, i as int));
                    let c = choose|c: int| self@.first_holding(capability, c);
                    if c < i {
                        assert(self@.entries[c].target != capability);
                    }
                    if c > i {
                        assert(self@.entries[i as int].target != capability);
                    }
                }
                return Some(self.entries[i].id);
            }
            i += 1;
        }
        proof {
            if exists|c: int| self@.first_holding(capability, c) {
                let c = choose|c: int| self@.first_holding(capability, c);
                assert(self@.entries[c] == self.entries[c]@);
            }
        }
        None
    }

    /// Registers an agent and returns its identifier, which no target has
    /// had before. The new target counts as alive since `now`.
    pub fn register(&mut self, exec_path: &str, pid: u64, target: Capability, now: u64) -> (r:
        Result<TargetId, RegistryError>)
        requires
            old(self).wf(),
        ensures
            final(self).wf(),
            match r {
                Ok(id) => {
                    &&& RegistryModel::well_formed_request(exec_path@, pid)
                    &&& old(self)@.minted < u64::MAX
                    &&& id.0 == old(self)@.minted
                    &&& final(self)@ == old(self)@.register(exec_path@, pid, target, now)
                },
                Err(RegistryError::MalformedRequest) => {
                    &&& !RegistryModel::well_formed_request(exec_path@, pid)
                    &&& final(self)@ == old(self)@
                },
                Err(RegistryError::IdentifiersExhausted) => {
                    &&& RegistryModel::well_formed_request(exec_path@, pid)
                    &&& old(self)@.minted == u64::MAX
                    &&& final(self)@ == old(self)@
                },
            },
    {
        if pid == 0 || exec_path.is_empty() {
            return Err(RegistryError::MalformedRequest);
        }
        if self.next_id == u64::MAX {
            return Err(RegistryError::IdentifiersExhausted);
        }
        let id = TargetId(self.next_id);
        let handle = TargetHandle {
            id,
            pid,
            exe: exec_path.to_owned(),
            target,
            liveness: Liveness::Alive,
            last_heartbeat: now,
            probe_deadline: 0,
        };
        self.entries.push(handle);
        self.next_id = self.next_id + 1;
        proof {
            assert(final(self)@.entries =~= old(self)@.register(
                exec_path@,
                pid,
                target,
                now,
            ).entries);
        }
        Ok(id)
    }

    /// Whether the next sweep is due at `now`.
    pub fn sweep_due(&self, now: u64) -> (due: bool)
        ensures
            due == self@.sweep_due(now),
    {
        match self.last_sweep {
            Some(start) => now >= start && now - start >= SWEEP_INTERVAL_MS,
            None => true,
        }
    }

    /// Starts a sweep at `now`: every live target gets a probe and awaits
    /// its answer for `PROBE_TIMEOUT_MS`. A target that still awaits an
    /// earlier probe gets none.
    pub fn begin_sweep(&mut self, now: u64) -> (probes: Vec<Probe>)
        requires
            old(self).wf(),
        ensures
            final(self).wf(),
            final(self)@ == old(self)@.begin_sweep(now),
            probes@ == old(self)@.probes(),
    {
        let ghost before = self@;
        let ghost f = |r: TargetRecord| probe_for(r);
        let start = match self.last_sweep {
            Some(last) => if last > now {
                last
            } else {
                now
            },
            None => now,
        };
        let deadline = start.saturating_add(PROBE_TIMEOUT_MS);
        let mut probes: Vec<Probe> = Vec::new();
        let mut i: usize = 0;
        while i < self.entries.len()
            invariant
                i <= self.entries.len(),
                self.entries.len() == before.entries.len(),
                self@.minted == before.minted,
                self@.last_sweep == before.last_sweep,
                f == (|r: TargetRecord| probe_for(r)),
                forall|j: int|
                    0 <= j < i ==> self.entries[j]@ == mark_pending(before.entries[j], deadline),
                forall|j: int|
                    i <= j < self.entries.len() ==> self.entries[j]@ == before.entries[j],
                probes@ == before.entries.take(i as int).filter_map(f),
            decreases self.entries.len() - i,
        {
            proof {
                before.entries.lemma_filter_map_take_succ(f, i as int);
            }
            if self.entries[i].liveness == Liveness::Alive {
                probes.push(
                    Probe {
                        target: self.entries[i].id,
                        capability: self.entries[i].target,
                        timeout_ms: PROBE_TIMEOUT_MS,
                    },
                );
                self.entries[i].liveness = Liveness::PendingCheck;
                self.entries[i].probe_deadline = deadline;
            }
            i += 1;
        }
        self.last_sweep = Some(start);
        proof {
            assert(before.entries.take(i as int) =~= before.entries);
            assert(self@.entries =~= before.begin_sweep(now).entries);
            lemma_probing_keeps_wf(before, now, TargetId(0), ProbeOutcome::Responded);
        }
        probes
    }

    /// Records how the probe for `id` ended. Returns whether a probe for
    /// `id` was in flight; if none was, nothing changes.
    pub fn probe_resolved(&mut self, id: TargetId, outcome: ProbeOutcome, now: u64) -> (applied:
        bool)
        requires
            old(self).wf(),
        ensures
            final(self).wf(),
            final(self)@ == old(self)@.resolve(id, outcome, now),
            applied == old(self)@.awaits(id),
    {
        let ghost before = self@;
        proof {
            lemma_probing_keeps_wf(before, now, id, outcome);
        }
        match self.index_of(id) {
            Some(i) => {
                assert(before.entries[i as int] == self.entries[i as int]@);
                let applied = self.entries[i].liveness == Liveness::PendingCheck;
                if applied {
                    match outcome {
                        ProbeOutcome::Responded => {
                            self.entries[i].liveness = Liveness::Alive;
                            self.entries[i].last_heartbeat = now;
                        },
                        _ => {
                            self.entries[i].liveness = Liveness::Dead;
                        },
                    }
                }
                proof {
                    assert forall|j: int| 0 <= j < before.entries.len() implies self@.entries[j]
                        == settle(before.entries[j], id, outcome, now) by {
                        assert(self@.entries[j] == self.entries[j]@);
                        assert(before.entries[j] == old(self).entries[j]@);
                        if j != i {
                            if j < i {
                                assert(before.entries[j].id.0 < before.entries[i as int].id.0);
                            } else {
                                assert(before.entries[i as int].id.0 < before.entries[j].id.0);
                            }
                        }
                    }
                    assert(self@.entries =~= before.resolve(id, outcome, now).entries);
                    if before.awaits(id) {
                        let c = choose|c: int|
                            0 <= c < before.entries.len() && (#[trigger] before.entries[c]).id
                                == id && before.entries[c].liveness is PendingCheck;
                        if c < i {
                            assert(before.entries[c].id.0 < before.entries[i as int].id.0);
                        }
                        if c > i {
                            assert(before.entries[i as int].id.0 < before.entries[c].id.0);
                        }
                    }
                }
                applied
            },
            None => {
                proof {
                    assert(self@.entries =~= before.resolve(id, outcome, now).entries);
                }
                false
            },
        }
    }

    /// Fails every probe in flight whose time is up at `now`, and returns
    /// the targets that it failed.
    pub fn expire_probes(&mut self, now: u64) -> (lapsed: Vec<TargetId>)
        requires
            old(self).wf(),
        ensures
            final(self).wf(),
            final(self)@ == old(self)@.expire(now),
            lapsed@ == old(self)@.lapsed(now),
    {
        let ghost before = self@;
        let ghost f = |r: TargetRecord| lapsed_id(r, now);
        let mut lapsed: Vec<TargetId> = Vec::new();
        let mut i: usize = 0;
        while i < self.entries.len()
            invariant
                i <= self.entries.len(),
                self.entries.len() == before.entries.len(),
                self@.minted == before.minted,
                self@.last_sweep == before.last_sweep,
                f == (|r: TargetRecord| lapsed_id(r, now)),
                forall|j: int| 0 <= j < i ==> self.entries[j]@ == lapse(before.entries[j], now),
                forall|j: int|
                    i <= j < self.entries.len() ==> self.entries[j]@ == before.entries[j],
                lapsed@ == before.entries.take(i as int).filter_map(f),
            decreases self.entries.len() - i,
        {
            proof {
                before.entries.lemma_filter_map_take_succ(f, i as int);
            }
            if self.entries[i].liveness == Liveness::PendingCheck && self.entries[i].probe_deadline
                <= now {
                lapsed.push(self.entries[i].id);
                self.entries[i].liveness = Liveness::Dead;
            }
            i += 1;
        }
        proof {
            assert(before.entries.take(i as int) =~= before.entries);
            assert(self@.entries =~= before.expire(now).entries);
            lemma_expire_keeps_wf(before, now);
        }
        lapsed
    }

    /// Whether every probe of the current sweep has ended.
    pub fn is_settled(&self) -> (b: bool)
        ensures
            b == self@.settled(),
    {
        let mut i: usize = 0;
        while i < self.entries.len()
            invariant
                i <= self.entries.len(),
                forall|j: int| 0 <= j < i ==> !(self.entries[j].liveness is PendingCheck),
            decreases self.entries.len() - i,
        {
            if self.entries[i].liveness == Liveness::PendingCheck {
                assert(self@.entries[i as int] == self.entries[i as int]@);
                return false;
            }
            i += 1;
        }
        assert forall|j: int| 0 <= j < self@.entries.len() implies !((
        #[trigger] self@.entries[j]).liveness is PendingCheck) by {
            assert(self@.entries[j] == self.entries[j]@);
        }
        true
    }

    /// Ends a sweep: once no probe is in flight, removes every dead target
    /// in one batch and returns them. While a probe is still in flight,
    /// returns `None` and removes nothing.
    pub fn finish_sweep(&mut self) -> (evicted: Option<Vec<Evicted>>)
        requires
            old(self).wf(),
        ensures
            final(self).wf(),
            match evicted {
                Some(ids) => {
                    &&& old(self)@.settled()
                    &&& final(self)@ == old(self)@.finish()
                    &&& ids@ == old(self)@.evicted()
                },
                None => !old(self)@.settled() && final(self)@ == old(self)@,
            },
    {
        if !self.is_settled() {
            return None;
        }
        let ghost before = self@;
        let ghost keep = |r: TargetRecord| survives(r);
        let ghost gone = |r: TargetRecord| evicted_of(r);
        let mut ids: Vec<Evicted> = Vec::new();
        let mut i: usize = 0;
        let mut k: usize = 0;
        assert(before.entries.len() == self.entries.len());
        while i < self.entries.len()
            invariant
                keep == (|r: TargetRecord| survives(r)),
                gone == (|r: TargetRecord| evicted_of(r)),
                self@.minted == before.minted,
                self@.last_sweep == before.last_sweep,
                i <= k <= before.entries.len() <= usize::MAX,
                self.entries.len() - i == before.entries.len() - k,
                self@.entries.take(i as int) == before.entries.take(k as int).filter(keep),
                self@.entries.skip(i as int) == before.entries.skip(k as int),
                ids@ == before.entries.take(k as int).filter_map(gone),
            decreases self.entries.len() - i,
        {
            let ghost current = self@.entries;
            proof {
                before.entries.lemma_filter_map_take_succ(gone, k as int);
                before.entries.lemma_take_succ_push(k as int);
                before.entries.take(k as int).lemma_filter_push(before.entries[k as int], keep);
                assert(current[i as int] == current.skip(i as int)[0]);
                assert(before.entries[k as int] == before.entries.skip(k as int)[0]);
                assert(current[i as int] == self.entries[i as int]@);
            }
            if self.entries[i].liveness == Liveness::Dead {
                ids.push(Evicted { target: self.entries[i].id, capability: self.entries[i].target });
                self.entries.remove(i);
                proof {
                    assert(self@.entries =~= current.remove(i as int));
                    assert(self@.entries.take(i as int) =~= current.take(i as int));
                    assert(self@.entries.skip(i as int) =~= current.skip(i as int).skip(1));
                    assert(before.entries.skip(k as int + 1) =~= before.entries.skip(
                        k as int,
                    ).skip(1));
                }
            } else {
                proof {
                    assert(current.take(i as int + 1) =~= current.take(i as int).push(
                        current[i as int],
                    ));
                    assert(current.skip(i as int + 1) =~= current.skip(i as int).skip(1));
                    assert(before.entries.skip(k as int + 1) =~= before.entries.skip(
                        k as int,
                    ).skip(1));
                }
                i += 1;
            }
            k += 1;
        }
        proof {
            assert(before.entries.take(k as int) =~= before.entries);
            assert(self@.entries.take(i as int) =~= self@.entries);
            lemma_finish_keeps_wf(before);
        }
        Some(ids)
    }
}

/// Beginning a sweep and settling a probe keep the table well formed and
/// keep every target in it.
pub proof fn lemma_probing_keeps_wf(m: RegistryModel, now: u64, id: TargetId, outcome: ProbeOutcome)
    requires
        m.wf(),
    ensures
        m.begin_sweep(now).wf(),
        m.resolve(id, outcome, now).wf(),
        forall|t: TargetId| m.contains(t) <==> m.begin_sweep(now).contains(t),
        forall|t: TargetId| m.contains(t) <==> m.resolve(id, outcome, now).contains(t),
{
    let a = m.begin_sweep(now);
    let b = m.resolve(id, outcome, now);
    assert forall|t: TargetId| m.contains(t) <==> a.contains(t) by {
        if m.contains(t) {
            let i = choose|i: int| 0 <= i < m.entries.len() && (#[trigger] m.entries[i]).id == t;
            assert(a.entries[i].id == t);
        }
        if a.contains(t) {
            let i = choose|i: int| 0 <= i < a.entries.len() && (#[trigger] a.entries[i]).id == t;
            assert(m.entries[i].id == t);
        }
    }
    assert forall|t: TargetId| m.contains(t) <==> b.contains(t) by {
        if m.contains(t) {
            let i = choose|i: int| 0 <= i < m.entries.len() && (#[trigger] m.entries[i]).id == t;
            assert(b.entries[i].id == t);
        }
        if b.contains(t) {
            let i = choose|i: int| 0 <= i < b.entries.len() && (#[trigger] b.entries[i]).id == t;
            assert(m.entries[i].id == t);
        }
    }
    assert forall|i: int|
        0 <= i < a.entries.len() && (#[trigger] a.entries[i]).liveness
            is PendingCheck implies a.entries[i].probe_deadline <= a.horizon() by {
        if m.entries[i].liveness is PendingCheck {
            assert(m.entries[i].probe_deadline <= m.horizon());
        }
    }
    assert forall|i: int|
        0 <= i < b.entries.len() && (#[trigger] b.entries[i]).liveness
            is PendingCheck implies b.entries[i].probe_deadline <= b.horizon() by {
        assert(m.entries[i].liveness is PendingCheck);
    }
    assert forall|i: int, j: int| 0 <= i < j < a.entries.len() implies a.entries[i].id.0
        < a.entries[j].id.0 by {
        assert(m.entries[i].id.0 < m.entries[j].id.0);
    }
    assert forall|i: int, j: int| 0 <= i < j < b.entries.len() implies b.entries[i].id.0
        < b.entries[j].id.0 by {
        assert(m.entries[i].id.0 < m.entries[j].id.0);
    }
    assert forall|i: int| 0 <= i < a.entries.len() implies (#[trigger] a.entries[i]).id.0
        < a.minted by {
        assert(m.entries[i].id.0 < m.minted);
    }
    assert forall|i: int| 0 <= i < b.entries.len() implies (#[trigger] b.entries[i]).id.0
        < b.minted by {
        assert(m.entries[i].id.0 < m.minted);
    }
}

/// Failing the probes whose time is up keeps the table well formed and
/// keeps every target in it. Once the horizon is reached, no probe is left
/// in flight.
pub proof fn lemma_expire_keeps_wf(m: RegistryModel, now: u64)
    requires
        m.wf(),
    ensures
        m.expire(now).wf(),
        forall|t: TargetId| m.contains(t) <==> m.expire(now).contains(t),
        now >= m.horizon() ==> m.expire(now).settled(),
{
    let a = m.expire(now);
    assert forall|t: TargetId| m.contains(t) <==> a.contains(t) by {
        if m.contains(t) {
            let i = choose|i: int| 0 <= i < m.entries.len() && (#[trigger] m.entries[i]).id == t;
            assert(a.entries[i].id == t);
        }
        if a.contains(t) {
            let i = choose|i: int| 0 <= i < a.entries.len() && (#[trigger] a.entries[i]).id == t;
            assert(m.entries[i].id == t);
        }
    }
    assert forall|i: int|
        0 <= i < a.entries.len() && (#[trigger] a.entries[i]).liveness
            is PendingCheck implies a.entries[i].probe_deadline <= a.horizon() by {
        assert(m.entries[i].liveness is PendingCheck);
    }
    assert forall|i: int, j: int| 0 <= i < j < a.entries.len() implies a.entries[i].id.0
        < a.entries[j].id.0 by {
        assert(m.entries[i].id.0 < m.entries[j].id.0);
    }
    assert forall|i: int| 0 <= i < a.entries.len() implies (#[trigger] a.entries[i]).id.0
        < a.minted by {
        assert(m.entries[i].id.0 < m.minted);
    }
    if now >= m.horizon() {
        assert forall|i: int| 0 <= i < a.entries.len() implies !((
        #[trigger] a.entries[i]).liveness is PendingCheck) by {
            if m.entries[i].liveness is PendingCheck {
                assert(m.entries[i].probe_deadline <= m.horizon());
            }
        }
    }
}

/// What the end of a sweep keeps was there before, and was not dead.
pub proof fn lemma_finish_keeps_survivors(m: RegistryModel, i: int)
    requires
        0 <= i < m.finish().entries.len(),
    ensures
        survives(m.finish().entries[i]),
        m.entries.contains(m.finish().entries[i]),
{
    let keep = |r: TargetRecord| survives(r);
    m.entries.lemma_filter_pred(keep, i);
    let kept = m.entries.filter(keep);
    assert(kept.contains(kept[i]));
    m.entries.lemma_filter_contains_rev(keep, kept[i]);
}

/// The end of a sweep keeps the order of the table.
proof fn lemma_finish_keeps_order(m: RegistryModel)
    requires
        m.wf(),
    ensures
        forall|i: int, j: int|
            0 <= i < j < m.finish().entries.len() ==> m.finish().entries[i].id.0
                < m.finish().entries[j].id.0,
    decreases m.entries.len(),
{
    let keep = |r: TargetRecord| survives(r);
    if m.entries.len() > 0 {
        let rest = RegistryModel { entries: m.entries.drop_last(), ..m };
        lemma_finish_keeps_order(rest);
        assert(rest.entries.push(m.entries.last()) =~= m.entries);
        rest.entries.lemma_filter_push(m.entries.last(), keep);
        let kept = rest.entries.filter(keep);
        assert forall|i: int| 0 <= i < kept.len() implies (#[trigger] kept[i]).id.0
            < m.entries.last().id.0 by {
            assert(kept.contains(kept[i]));
            rest.entries.lemma_filter_contains_rev(keep, kept[i]);
            let j = choose|j: int| 0 <= j < rest.entries.len() && rest.entries[j] == kept[i];
            assert(m.entries[j].id.0 < m.entries[m.entries.len() - 1].id.0);
        }
    } else {
        reveal(Seq::filter);
    }
}

/// The end of a sweep keeps the table well formed.
pub proof fn lemma_finish_keeps_wf(m: RegistryModel)
    requires
        m.wf(),
    ensures
        m.finish().wf(),
{
    lemma_finish_keeps_order(m);
    let after = m.finish();
    assert forall|i: int| 0 <= i < after.entries.len() implies {
        &&& (#[trigger] after.entries[i]).id.0 < after.minted
        &&& after.entries[i].liveness is PendingCheck ==> after.entries[i].probe_deadline
            <= after.horizon()
    } by {
        lemma_finish_keeps_survivors(m, i);
        let j = choose|j: int| 0 <= j < m.entries.len() && m.entries[j] == after.entries[i];
        assert(m.entries[j].id.0 < m.minted);
    }
}

} // verus!
