//! Timed pending-protocol states, keyed by source peer and state kind.
//!
//! Each source holds at most one slot of each kind; setting a slot starts
//! its count-down and overwrites what was armed. Reading a slot past its
//! deadline consumes it, so a timeout fires exactly once.

use vstd::prelude::*;

use crate::identity::Peer;
use crate::peer_map::{PeerMap, pm_at, pm_has, pm_idx, pm_wf};
use crate::utils::{CasualTimer, now_millis};

verus! {

/// How long a join request waits for its answer, in milliseconds.
pub const JOIN_WAIT_TO: u64 = 2000;

/// How long an accepted join waits for its confirmation.
pub const JOIN_PRE_TO: u64 = 2000;

/// How long a merge proposal waits for its answer.
pub const MERGE_WAIT_TO: u64 = 2000;

/// How long an accepted merge waits for its confirmation. It must exceed
/// the merge-wait and merge-check windows together.
pub const MERGE_PRE_TO: u64 = 4000;

/// How long a merge check waits for the root's answer.
pub const MERGE_CHECK_TO: u64 = 2000;

/// How long a grant proposal waits for its answer.
pub const GRANT_WAIT_TO: u64 = 2000;

/// How long a grant-side join waits for its answer.
pub const GRANT_JOIN_TO: u64 = 2000;

/// How long a grant receiver waits for the child to arrive.
pub const GRANT_RECV_TO: u64 = 2000;

/// How long the whole grant procedure may take.
pub const GRANT_TOTAL_TO: u64 = 2000;

/// How long a retract request waits for its answer.
pub const RETRACT_WAIT_TO: u64 = 2000;

/// How long a retract-side join waits for its answer.
pub const RETRACT_JOIN_TO: u64 = 2000;

/// How long a retract receiver waits for the child to arrive.
pub const RETRACT_RECV_TO: u64 = 2000;

/// How long the whole retract procedure may take.
pub const RETRACT_TOTAL_TO: u64 = 2000;

/// The kinds of pending states.
#[derive(Clone, Copy, Debug, PartialEq, Eq, Structural)]
pub enum WaitStateType {
    JoinWait,
    JoinPre,
    MergeWait,
    MergePre,
    MergeCheck,
    GrantWait,
    GrantJoin,
    GrantRecv,
    GrantTotal,
    RetractWait,
    RetractJoin,
    RetractRecv,
    RetractTotal,
}

/// The data a pending state carries. The first peer is always the source
/// whose tree the handshake concerns; the second is the remote peer waited
/// on; the number is the message id the answer must acknowledge.
pub enum WaitStateData {
    JoinWait((Peer, Peer, u64)),
    JoinPre((Peer, Peer, u64)),
    MergeWait((Peer, Peer, u64)),
    MergePre((Peer, Peer, u64)),
    MergeCheck((Peer, Peer, u64, u64)),
    GrantWait((Peer, Peer, u64)),
    GrantJoin((Peer, Peer, u64)),
    GrantRecv((Peer, Peer)),
    GrantTotal((Peer, Peer)),
    RetractWait((Peer, Peer, u64)),
    RetractJoin((Peer, Peer, u64)),
    RetractRecv((Peer, Peer, u64)),
    RetractTotal((Peer, Peer)),
}

/// The mathematical value of a pending state: its kind, the source id, the
/// related peer's id, the associated message id, and — for the merge check,
/// which tracks two ids — the confirmation id it will forward.
pub ghost struct WaitDataView {
    pub kind: WaitStateType,
    pub src: Seq<u8>,
    pub peer: Seq<u8>,
    pub id: u64,
    pub confirm: u64,
}

impl View for WaitStateData {
    type V = WaitDataView;

    open spec fn view(&self) -> WaitDataView {
        match self {
            WaitStateData::JoinWait((s, p, id)) => WaitDataView {
                kind: WaitStateType::JoinWait,
                src: s@,
                peer: p@,
                id: *id,
                confirm: 0,
            },
            WaitStateData::JoinPre((s, p, id)) => WaitDataView {
                kind: WaitStateType::JoinPre,
                src: s@,
                peer: p@,
                id: *id,
                confirm: 0,
            },
            WaitStateData::MergeWait((s, p, id)) => WaitDataView {
                kind: WaitStateType::MergeWait,
                src: s@,
                peer: p@,
                id: *id,
                confirm: 0,
            },
            WaitStateData::MergePre((s, p, id)) => WaitDataView {
                kind: WaitStateType::MergePre,
                src: s@,
                peer: p@,
                id: *id,
                confirm: 0,
            },
            WaitStateData::MergeCheck((s, p, confirm, id)) => WaitDataView {
                kind: WaitStateType::MergeCheck,
                src: s@,
                peer: p@,
                id: *id,
                confirm: *confirm,
            },
            WaitStateData::GrantWait((s, p, id)) => WaitDataView {
                kind: WaitStateType::GrantWait,
                src: s@,
                peer: p@,
                id: *id,
                confirm: 0,
            },
            WaitStateData::GrantJoin((s, p, id)) => WaitDataView {
                kind: WaitStateType::GrantJoin,
                src: s@,
                peer: p@,
                id: *id,
                confirm: 0,
            },
            WaitStateData::GrantRecv((s, p)) => WaitDataView {
                kind: WaitStateType::GrantRecv,
                src: s@,
                peer: p@,
                id: 0,
                confirm: 0,
            },
            WaitStateData::GrantTotal((s, p)) => WaitDataView {
                kind: WaitStateType::GrantTotal,
                src: s@,
                peer: p@,
                id: 0,
                confirm: 0,
            },
            WaitStateData::RetractWait((s, p, id)) => WaitDataView {
                kind: WaitStateType::RetractWait,
                src: s@,
                peer: p@,
                id: *id,
                confirm: 0,
            },
            WaitStateData::RetractJoin((s, p, id)) => WaitDataView {
                kind: WaitStateType::RetractJoin,
                src: s@,
                peer: p@,
                id: *id,
                confirm: 0,
            },
            WaitStateData::RetractRecv((s, p, id)) => WaitDataView {
                kind: WaitStateType::RetractRecv,
                src: s@,
                peer: p@,
                id: *id,
                confirm: 0,
            },
            WaitStateData::RetractTotal((s, p)) => WaitDataView {
                kind: WaitStateType::RetractTotal,
                src: s@,
                peer: p@,
                id: 0,
                confirm: 0,
            },
        }
    }
}

/// The message id a pending state answers to, for kinds that track one.
pub open spec fn wait_id_of(v: WaitDataView) -> Option<u64> {
    match v.kind {
        WaitStateType::GrantRecv => None,
        WaitStateType::GrantTotal => None,
        WaitStateType::RetractTotal => None,
        _ => Some(v.id),
    }
}

/// The count-down a pending state of this kind is armed with.
pub open spec fn spec_timeout_of(t: WaitStateType) -> u64 {
    match t {
        WaitStateType::JoinWait => JOIN_WAIT_TO,
        WaitStateType::JoinPre => JOIN_PRE_TO,
        WaitStateType::MergeWait => MERGE_WAIT_TO,
        WaitStateType::MergePre => MERGE_PRE_TO,
        WaitStateType::MergeCheck => MERGE_CHECK_TO,
        WaitStateType::GrantWait => GRANT_WAIT_TO,
        WaitStateType::GrantJoin => GRANT_JOIN_TO,
        WaitStateType::GrantRecv => GRANT_RECV_TO,
        WaitStateType::GrantTotal => GRANT_TOTAL_TO,
        WaitStateType::RetractWait => RETRACT_WAIT_TO,
        WaitStateType::RetractJoin => RETRACT_JOIN_TO,
        WaitStateType::RetractRecv => RETRACT_RECV_TO,
        WaitStateType::RetractTotal => RETRACT_TOTAL_TO,
    }
}

impl Clone for WaitStateData {
    /// A cloned pending state stands for the same record.
    fn clone(&self) -> (r: Self)
        ensures
            r@ == self@,
    {
        match self {
            WaitStateData::JoinWait((s, p, id)) => WaitStateData::JoinWait(
                (s.clone(), p.clone(), *id),
            ),
            WaitStateData::JoinPre((s, p, id)) => WaitStateData::JoinPre(
                (s.clone(), p.clone(), *id),
            ),
            WaitStateData::MergeWait((s, p, id)) => WaitStateData::MergeWait(
                (s.clone(), p.clone(), *id),
            ),
            WaitStateData::MergePre((s, p, id)) => WaitStateData::MergePre(
                (s.clone(), p.clone(), *id),
            ),
            WaitStateData::MergeCheck((s, p, confirm, id)) => WaitStateData::MergeCheck(
                (s.clone(), p.clone(), *confirm, *id),
            ),
            WaitStateData::GrantWait((s, p, id)) => WaitStateData::GrantWait(
                (s.clone(), p.clone(), *id),
            ),
            WaitStateData::GrantJoin((s, p, id)) => WaitStateData::GrantJoin(
                (s.clone(), p.clone(), *id),
            ),
            WaitStateData::GrantRecv((s, p)) => WaitStateData::GrantRecv((s.clone(), p.clone())),
            WaitStateData::GrantTotal((s, p)) => WaitStateData::GrantTotal((s.clone(), p.clone())),
            WaitStateData::RetractWait((s, p, id)) => WaitStateData::RetractWait(
                (s.clone(), p.clone(), *id),
            ),
            WaitStateData::RetractJoin((s, p, id)) => WaitStateData::RetractJoin(
                (s.clone(), p.clone(), *id),
            ),
            WaitStateData::RetractRecv((s, p, id)) => WaitStateData::RetractRecv(
                (s.clone(), p.clone(), *id),
            ),
            WaitStateData::RetractTotal((s, p)) => WaitStateData::RetractTotal(
                (s.clone(), p.clone()),
            ),
        }
    }
}

impl WaitStateData {
    /// The kind of slot this data belongs in.
    pub fn kind(&self) -> (r: WaitStateType)
        ensures
            r == self@.kind,
    {
        match self {
            WaitStateData::JoinWait(_) => WaitStateType::JoinWait,
            WaitStateData::JoinPre(_) => WaitStateType::JoinPre,
            WaitStateData::MergeWait(_) => WaitStateType::MergeWait,
            WaitStateData::MergePre(_) => WaitStateType::MergePre,
            WaitStateData::MergeCheck(_) => WaitStateType::MergeCheck,
            WaitStateData::GrantWait(_) => WaitStateType::GrantWait,
            WaitStateData::GrantJoin(_) => WaitStateType::GrantJoin,
            WaitStateData::GrantRecv(_) => WaitStateType::GrantRecv,
            WaitStateData::GrantTotal(_) => WaitStateType::GrantTotal,
            WaitStateData::RetractWait(_) => WaitStateType::RetractWait,
            WaitStateData::RetractJoin(_) => WaitStateType::RetractJoin,
            WaitStateData::RetractRecv(_) => WaitStateType::RetractRecv,
            WaitStateData::RetractTotal(_) => WaitStateType::RetractTotal,
        }
    }
}

/// One armed slot: its data and the count-down that was started when it was
/// set.
pub struct WaitState {
    pub wait_timer: CasualTimer,
    pub inner: WaitStateData,
}

impl WaitState {
    /// Arm a slot at the given instant, with the count-down its kind calls
    /// for.
    pub fn new_at(data: WaitStateData, now: u64) -> (r: Self)
        ensures
            r.inner@ == data@,
            r.wait_timer.last_seen_spec() == Some(now),
            r.wait_timer.counter_spec() == spec_timeout_of(data@.kind),
    {
        let kind = data.kind();
        let counter: u64 = match kind {
            WaitStateType::JoinWait => JOIN_WAIT_TO,
            WaitStateType::JoinPre => JOIN_PRE_TO,
            WaitStateType::MergeWait => MERGE_WAIT_TO,
            WaitStateType::MergePre => MERGE_PRE_TO,
            WaitStateType::MergeCheck => MERGE_CHECK_TO,
            WaitStateType::GrantWait => GRANT_WAIT_TO,
            WaitStateType::GrantJoin => GRANT_JOIN_TO,
            WaitStateType::GrantRecv => GRANT_RECV_TO,
            WaitStateType::GrantTotal => GRANT_TOTAL_TO,
            WaitStateType::RetractWait => RETRACT_WAIT_TO,
            WaitStateType::RetractJoin => RETRACT_JOIN_TO,
            WaitStateType::RetractRecv => RETRACT_RECV_TO,
            WaitStateType::RetractTotal => RETRACT_TOTAL_TO,
        };
        let mut timer = CasualTimer::new(counter);
        timer.set_at(now);
        WaitState { wait_timer: timer, inner: data }
    }
}

/// One source's slots: at most one armed state of each kind.
pub struct WaitStats {
    join_wait: Option<WaitState>,
    join_pre: Option<WaitState>,
    merge_wait: Option<WaitState>,
    merge_pre: Option<WaitState>,
    merge_check: Option<WaitState>,
    grant_wait: Option<WaitState>,
    grant_join: Option<WaitState>,
    grant_recv: Option<WaitState>,
    grant_total: Option<WaitState>,
    retract_wait: Option<WaitState>,
    retract_join: Option<WaitState>,
    retract_recv: Option<WaitState>,
    retract_total: Option<WaitState>,
}

impl WaitStats {
    /// The slot of the given kind.
    pub closed spec fn slot(&self, t: WaitStateType) -> Option<WaitState> {
        match t {
            WaitStateType::JoinWait => self.join_wait,
            WaitStateType::JoinPre => self.join_pre,
            WaitStateType::MergeWait => self.merge_wait,
            WaitStateType::MergePre => self.merge_pre,
            WaitStateType::MergeCheck => self.merge_check,
            WaitStateType::GrantWait => self.grant_wait,
            WaitStateType::GrantJoin => self.grant_join,
            WaitStateType::GrantRecv => self.grant_recv,
            WaitStateType::GrantTotal => self.grant_total,
            WaitStateType::RetractWait => self.retract_wait,
            WaitStateType::RetractJoin => self.retract_join,
            WaitStateType::RetractRecv => self.retract_recv,
            WaitStateType::RetractTotal => self.retract_total,
        }
    }

    /// Some slot of this record is armed.
    pub open spec fn any_slot(&self) -> bool {
        ||| self.slot(WaitStateType::JoinWait) is Some
        ||| self.slot(WaitStateType::JoinPre) is Some
        ||| self.slot(WaitStateType::MergeWait) is Some
        ||| self.slot(WaitStateType::MergePre) is Some
        ||| self.slot(WaitStateType::MergeCheck) is Some
        ||| self.slot(WaitStateType::GrantWait) is Some
        ||| self.slot(WaitStateType::GrantJoin) is Some
        ||| self.slot(WaitStateType::GrantRecv) is Some
        ||| self.slot(WaitStateType::GrantTotal) is Some
        ||| self.slot(WaitStateType::RetractWait) is Some
        ||| self.slot(WaitStateType::RetractJoin) is Some
        ||| self.slot(WaitStateType::RetractRecv) is Some
        ||| self.slot(WaitStateType::RetractTotal) is Some
    }

    /// A record with nothing armed.
    pub fn new() -> (r: Self)
        ensures
            forall|t: WaitStateType| r.slot(t) is None,
    {
        Self {
            join_wait: None,
            join_pre: None,
            merge_wait: None,
            merge_pre: None,
            merge_check: None,
            grant_wait: None,
            grant_join: None,
            grant_recv: None,
            grant_total: None,
            retract_wait: None,
            retract_join: None,
            retract_recv: None,
            retract_total: None,
        }
    }

    /// The armed data of the given kind, without consuming it.
    pub fn get(&self, t: WaitStateType) -> (r: Option<WaitStateData>)
        ensures
            match r {
                Some(d) => self.slot(t) matches Some(ws) && d@ == ws.inner@,
                None => self.slot(t) is None,
            },
    {
        let slot = match t {
            WaitStateType::JoinWait => &self.join_wait,
            WaitStateType::JoinPre => &self.join_pre,
            WaitStateType::MergeWait => &self.merge_wait,
            WaitStateType::MergePre => &self.merge_pre,
            WaitStateType::MergeCheck => &self.merge_check,
            WaitStateType::GrantWait => &self.grant_wait,
            WaitStateType::GrantJoin => &self.grant_join,
            WaitStateType::GrantRecv => &self.grant_recv,
            WaitStateType::GrantTotal => &self.grant_total,
            WaitStateType::RetractWait => &self.retract_wait,
            WaitStateType::RetractJoin => &self.retract_join,
            WaitStateType::RetractRecv => &self.retract_recv,
            WaitStateType::RetractTotal => &self.retract_total,
        };
        match slot {
            Some(ws) => Some(ws.inner.clone()),
            None => None,
        }
    }

    /// The armed data of the given kind, exactly when its deadline has
    /// passed as of `now`; reading it consumes the slot. Nothing else
    /// changes.
    pub fn check_at(&mut self, t: WaitStateType, now: u64) -> (r: Option<WaitStateData>)
        ensures
            forall|t2: WaitStateType| t2 != t ==> final(self).slot(t2) == old(self).slot(t2),
            match old(self).slot(t) {
                Some(ws) => {
                    if ws.wait_timer.spec_timed_out_at(now) {
                        r matches Some(d) && d@ == ws.inner@ && final(self).slot(t) is None
                    } else {
                        r is None && final(self).slot(t) == old(self).slot(t)
                    }
                },
                None => r is None && final(self).slot(t) == old(self).slot(t),
            },
    {
        let armed = match t {
            WaitStateType::JoinWait => &self.join_wait,
            WaitStateType::JoinPre => &self.join_pre,
            WaitStateType::MergeWait => &self.merge_wait,
            WaitStateType::MergePre => &self.merge_pre,
            WaitStateType::MergeCheck => &self.merge_check,
            WaitStateType::GrantWait => &self.grant_wait,
            WaitStateType::GrantJoin => &self.grant_join,
            WaitStateType::GrantRecv => &self.grant_recv,
            WaitStateType::GrantTotal => &self.grant_total,
            WaitStateType::RetractWait => &self.retract_wait,
            WaitStateType::RetractJoin => &self.retract_join,
            WaitStateType::RetractRecv => &self.retract_recv,
            WaitStateType::RetractTotal => &self.retract_total,
        };
        let fire = match armed {
            Some(ws) => ws.wait_timer.is_timeout_at(now),
            None => false,
        };
        if !fire {
            return None;
        }
        let taken = match t {
            WaitStateType::JoinWait => self.join_wait.take(),
            WaitStateType::JoinPre => self.join_pre.take(),
            WaitStateType::MergeWait => self.merge_wait.take(),
            WaitStateType::MergePre => self.merge_pre.take(),
            WaitStateType::MergeCheck => self.merge_check.take(),
            WaitStateType::GrantWait => self.grant_wait.take(),
            WaitStateType::GrantJoin => self.grant_join.take(),
            WaitStateType::GrantRecv => self.grant_recv.take(),
            WaitStateType::GrantTotal => self.grant_total.take(),
            WaitStateType::RetractWait => self.retract_wait.take(),
            WaitStateType::RetractJoin => self.retract_join.take(),
            WaitStateType::RetractRecv => self.retract_recv.take(),
            WaitStateType::RetractTotal => self.retract_total.take(),
        };
        match taken {
            Some(ws) => Some(ws.inner),
            None => None,
        }
    }

    /// Arm the slot the data's kind belongs in, at the given instant,
    /// overwriting what was there. Nothing else changes.
    pub fn set_at(&mut self, data: WaitStateData, now: u64)
        ensures
            forall|t2: WaitStateType|
                t2 != data@.kind ==> final(self).slot(t2) == old(self).slot(t2),
            final(self).slot(data@.kind) matches Some(ws) && ws.inner@ == data@
                && ws.wait_timer.last_seen_spec() == Some(now) && ws.wait_timer.counter_spec()
                == spec_timeout_of(data@.kind),
    {
        let kind = data.kind();
        let ws = WaitState::new_at(data, now);
        match kind {
            WaitStateType::JoinWait => self.join_wait = Some(ws),
            WaitStateType::JoinPre => self.join_pre = Some(ws),
            WaitStateType::MergeWait => self.merge_wait = Some(ws),
            WaitStateType::MergePre => self.merge_pre = Some(ws),
            WaitStateType::MergeCheck => self.merge_check = Some(ws),
            WaitStateType::GrantWait => self.grant_wait = Some(ws),
            WaitStateType::GrantJoin => self.grant_join = Some(ws),
            WaitStateType::GrantRecv => self.grant_recv = Some(ws),
            WaitStateType::GrantTotal => self.grant_total = Some(ws),
            WaitStateType::RetractWait => self.retract_wait = Some(ws),
            WaitStateType::RetractJoin => self.retract_join = Some(ws),
            WaitStateType::RetractRecv => self.retract_recv = Some(ws),
            WaitStateType::RetractTotal => self.retract_total = Some(ws),
        }
    }

    /// Disarm the slot of the given kind. Nothing else changes.
    pub fn clear(&mut self, t: WaitStateType)
        ensures
            forall|t2: WaitStateType| t2 != t ==> final(self).slot(t2) == old(self).slot(t2),
            final(self).slot(t) is None,
    {
        match t {
            WaitStateType::JoinWait => self.join_wait = None,
            WaitStateType::JoinPre => self.join_pre = None,
            WaitStateType::MergeWait => self.merge_wait = None,
            WaitStateType::MergePre => self.merge_pre = None,
            WaitStateType::MergeCheck => self.merge_check = None,
            WaitStateType::GrantWait => self.grant_wait = None,
            WaitStateType::GrantJoin => self.grant_join = None,
            WaitStateType::GrantRecv => self.grant_recv = None,
            WaitStateType::GrantTotal => self.grant_total = None,
            WaitStateType::RetractWait => self.retract_wait = None,
            WaitStateType::RetractJoin => self.retract_join = None,
            WaitStateType::RetractRecv => self.retract_recv = None,
            WaitStateType::RetractTotal => self.retract_total = None,
        }
    }

    /// Some armed slot of this record answers to the given message id.
    pub open spec fn has_id(&self, id: u64) -> bool {
        exists|t: WaitStateType|
            (#[trigger] self.slot(t)) matches Some(ws) && wait_id_of(ws.inner@) == Some(id)
    }

    /// The data of some armed slot answering to the given message id, or
    /// `None` when no slot does.
    pub fn check_id(&self, id: u64) -> (r: Option<WaitStateData>)
        ensures
            match r {
                Some(d) => exists|t: WaitStateType|
                    (#[trigger] self.slot(t)) matches Some(ws) && ws.inner@ == d@ && wait_id_of(
                        ws.inner@,
                    ) == Some(id),
                None => !self.has_id(id),
            },
    {
        let slots: [&Option<WaitState>; 13] = [
            &self.join_wait,
            &self.join_pre,
            &self.merge_wait,
            &self.merge_pre,
            &self.merge_check,
            &self.grant_wait,
            &self.grant_join,
            &self.grant_recv,
            &self.grant_total,
            &self.retract_wait,
            &self.retract_join,
            &self.retract_recv,
            &self.retract_total,
        ];
        let kinds: [WaitStateType; 13] = [
            WaitStateType::JoinWait,
            WaitStateType::JoinPre,
            WaitStateType::MergeWait,
            WaitStateType::MergePre,
            WaitStateType::MergeCheck,
            WaitStateType::GrantWait,
            WaitStateType::GrantJoin,
            WaitStateType::GrantRecv,
            WaitStateType::GrantTotal,
            WaitStateType::RetractWait,
            WaitStateType::RetractJoin,
            WaitStateType::RetractRecv,
            WaitStateType::RetractTotal,
        ];
        let mut i: usize = 0;
        while i < 13
            invariant
                i <= 13,
                forall|j: int|
                    0 <= j < i ==> !((#[trigger] self.slot(kinds@[j])) matches Some(ws)
                        && wait_id_of(ws.inner@) == Some(id)),
                forall|j: int| 0 <= j < 13 ==> *slots@[j] == self.slot(kinds@[j]),
            decreases 13 - i,
        {
            match slots[i] {
                Some(ws) => {
                    let wid = match &ws.inner {
                        WaitStateData::JoinWait((_, _, sid)) => Some(*sid),
                        WaitStateData::JoinPre((_, _, sid)) => Some(*sid),
                        WaitStateData::MergeWait((_, _, sid)) => Some(*sid),
                        WaitStateData::MergePre((_, _, sid)) => Some(*sid),
                        WaitStateData::MergeCheck((_, _, _, sid)) => Some(*sid),
                        WaitStateData::GrantWait((_, _, sid)) => Some(*sid),
                        WaitStateData::GrantJoin((_, _, sid)) => Some(*sid),
                        WaitStateData::RetractWait((_, _, sid)) => Some(*sid),
                        WaitStateData::RetractJoin((_, _, sid)) => Some(*sid),
                        WaitStateData::RetractRecv((_, _, sid)) => Some(*sid),
                        WaitStateData::GrantRecv(_) => None,
                        WaitStateData::GrantTotal(_) => None,
                        WaitStateData::RetractTotal(_) => None,
                    };
                    match wid {
                        Some(sid) => {
                            if sid == id {
                                proof {
                                    assert(self.slot(kinds@[i as int]) matches Some(w2)
                                        && wait_id_of(w2.inner@) == Some(id));
                                }
                                return Some(ws.inner.clone());
                            }
                        },
                        None => {},
                    }
                },
                None => {},
            }
            i += 1;
        }
        proof {
            assert forall|t: WaitStateType| !((#[trigger] self.slot(t)) matches Some(ws)
                && wait_id_of(ws.inner@) == Some(id)) by {
                if self.slot(t) is Some {
                    let ws = self.slot(t)->Some_0;
                    if wait_id_of(ws.inner@) == Some(id) {
                        match t {
                            WaitStateType::JoinWait => {
                                assert(self.slot(kinds@[0]) == self.slot(t));
                            },
                            WaitStateType::JoinPre => {
                                assert(self.slot(kinds@[1]) == self.slot(t));
                            },
                            WaitStateType::MergeWait => {
                                assert(self.slot(kinds@[2]) == self.slot(t));
                            },
                            WaitStateType::MergePre => {
                                assert(self.slot(kinds@[3]) == self.slot(t));
                            },
                            WaitStateType::MergeCheck => {
                                assert(self.slot(kinds@[4]) == self.slot(t));
                            },
                            WaitStateType::GrantWait => {
                                assert(self.slot(kinds@[5]) == self.slot(t));
                            },
                            WaitStateType::GrantJoin => {
                                assert(self.slot(kinds@[6]) == self.slot(t));
                            },
                            WaitStateType::GrantRecv => {
                                assert(self.slot(kinds@[7]) == self.slot(t));
                            },
                            WaitStateType::GrantTotal => {
                                assert(self.slot(kinds@[8]) == self.slot(t));
                            },
                            WaitStateType::RetractWait => {
                                assert(self.slot(kinds@[9]) == self.slot(t));
                            },
                            WaitStateType::RetractJoin => {
                                assert(self.slot(kinds@[10]) == self.slot(t));
                            },
                            WaitStateType::RetractRecv => {
                                assert(self.slot(kinds@[11]) == self.slot(t));
                            },
                            WaitStateType::RetractTotal => {
                                assert(self.slot(kinds@[12]) == self.slot(t));
                            },
                        }
                    }
                }
            }
        }
        None
    }
}

/// The wait list: each source's slots, keyed by the source peer.
pub struct WaitList {
    inner_list: PeerMap<WaitStats>,
}

impl WaitList {
    /// The per-source records.
    pub closed spec fn entries(&self) -> Seq<(Seq<u8>, WaitStats)> {
        self.inner_list@
    }

    /// Each source appears once.
    pub open spec fn wf(&self) -> bool {
        pm_wf(self.entries())
    }

    /// The slot of the given kind for the given source; an unknown source
    /// has none armed.
    pub open spec fn slot_of(&self, peer: Seq<u8>, t: WaitStateType) -> Option<WaitState> {
        if pm_has(self.entries(), peer) {
            pm_at(self.entries(), peer).slot(t)
        } else {
            None
        }
    }

    /// An empty wait list.
    pub fn new() -> (r: Self)
        ensures
            r.wf(),
            r.entries().len() == 0,
    {
        Self { inner_list: PeerMap::new() }
    }

    /// Every source that holds a record, in storage order.
    pub fn keys(&self) -> (r: Vec<Peer>)
        ensures
            r@.len() == self.entries().len(),
            forall|i: int| 0 <= i < r@.len() ==> r@[i]@ == self.entries()[i].0,
    {
        self.inner_list.keys()
    }

    /// The armed data of one source and kind, without consuming it.
    pub fn get(&self, peer: &Peer, t: WaitStateType) -> (r: Option<WaitStateData>)
        requires
            self.wf(),
        ensures
            match r {
                Some(d) => self.slot_of(peer@, t) matches Some(ws) && d@ == ws.inner@,
                None => self.slot_of(peer@, t) is None,
            },
    {
        match self.inner_list.get(peer) {
            Some(stats) => stats.get(t),
            None => None,
        }
    }

    /// The armed data of one source and kind, exactly when its deadline has
    /// passed as of `now`; reading it consumes the slot. Every other slot of
    /// every source keeps its state.
    pub fn check_at(&mut self, peer: &Peer, t: WaitStateType, now: u64) -> (r: Option<
        WaitStateData,
    >)
        requires
            old(self).wf(),
        ensures
            final(self).wf(),
            forall|p2: Seq<u8>, t2: WaitStateType|
                p2 != peer@ || t2 != t ==> final(self).slot_of(p2, t2) == old(self).slot_of(
                    p2,
                    t2,
                ),
            match old(self).slot_of(peer@, t) {
                Some(ws) => {
                    if ws.wait_timer.spec_timed_out_at(now) {
                        r matches Some(d) && d@ == ws.inner@ && final(self).slot_of(peer@, t)
                            is None
                    } else {
                        r is None && final(self).slot_of(peer@, t) == old(self).slot_of(peer@, t)
                    }
                },
                None => r is None && final(self).slot_of(peer@, t) == old(self).slot_of(peer@, t),
            },
    {
        let mut stats = match self.inner_list.remove(peer) {
            Some(s) => s,
            None => {
                return None;
            },
        };
        let r = stats.check_at(t, now);
        self.inner_list.insert(peer, stats);
        proof {
            lemma_slot_frame(old(self), self, peer@);
        }
        r
    }

    /// Arm one source's slot of the data's kind at the given instant,
    /// overwriting what was armed; a source not yet listed is added. Every
    /// other slot of every source keeps its state.
    pub fn set_at(&mut self, peer: &Peer, data: WaitStateData, now: u64)
        requires
            old(self).wf(),
        ensures
            final(self).wf(),
            forall|p2: Seq<u8>, t2: WaitStateType|
                p2 != peer@ || t2 != data@.kind ==> final(self).slot_of(p2, t2) == old(
                    self,
                ).slot_of(p2, t2),
            final(self).slot_of(peer@, data@.kind) matches Some(ws) && ws.inner@ == data@
                && ws.wait_timer.last_seen_spec() == Some(now) && ws.wait_timer.counter_spec()
                == spec_timeout_of(data@.kind),
    {
        let mut stats = match self.inner_list.remove(peer) {
            Some(s) => s,
            None => WaitStats::new(),
        };
        stats.set_at(data, now);
        self.inner_list.insert(peer, stats);
        proof {
            lemma_slot_frame(old(self), self, peer@);
        }
    }

    /// Arm one source's slot, reading the clock for the set time.
    pub fn set(&mut self, peer: &Peer, data: WaitStateData)
        requires
            old(self).wf(),
        ensures
            final(self).wf(),
            forall|p2: Seq<u8>, t2: WaitStateType|
                p2 != peer@ || t2 != data@.kind ==> final(self).slot_of(p2, t2) == old(
                    self,
                ).slot_of(p2, t2),
            final(self).slot_of(peer@, data@.kind) matches Some(ws) && ws.inner@ == data@
                && ws.wait_timer.last_seen_spec() is Some && ws.wait_timer.counter_spec()
                == spec_timeout_of(data@.kind),
    {
        let now = now_millis();
        self.set_at(peer, data, now);
    }

    /// Disarm one source's slot of the given kind. Every other slot of every
    /// source keeps its state.
    pub fn clear(&mut self, peer: &Peer, t: WaitStateType)
        requires
            old(self).wf(),
        ensures
            final(self).wf(),
            forall|p2: Seq<u8>, t2: WaitStateType|
                p2 != peer@ || t2 != t ==> final(self).slot_of(p2, t2) == old(self).slot_of(
                    p2,
                    t2,
                ),
            final(self).slot_of(peer@, t) is None,
    {
        let mut stats = match self.inner_list.remove(peer) {
            Some(s) => s,
            None => {
                return ;
            },
        };
        stats.clear(t);
        self.inner_list.insert(peer, stats);
        proof {
            lemma_slot_frame(old(self), self, peer@);
        }
    }

    /// The data of some armed slot, of any source, answering to the given
    /// message id; `None` exactly when no slot of any source does.
    pub fn get_by_id(&self, id: u64) -> (r: Option<WaitStateData>)
        requires
            self.wf(),
        ensures
            match r {
                Some(d) => exists|i: int, t: WaitStateType|
                    0 <= i < self.entries().len() && ((#[trigger] self.entries()[i].1.slot(t))
                        matches Some(ws) && ws.inner@ == d@ && wait_id_of(ws.inner@) == Some(id)),
                None => forall|i: int|
                    0 <= i < self.entries().len() ==> !(#[trigger] self.entries()[i].1).has_id(id),
            },
    {
        let n = self.inner_list.len();
        let mut i: usize = 0;
        while i < n
            invariant
                self.wf(),
                n == self.entries().len(),
                i <= n,
                forall|j: int| 0 <= j < i ==> !(#[trigger] self.entries()[j].1).has_id(id),
            decreases n - i,
        {
            let stats = self.inner_list.val_at(i);
            match stats.check_id(id) {
                Some(d) => {
                    return Some(d);
                },
                None => {},
            }
            i += 1;
        }
        None
    }

    /// Some slot is armed for this source.
    pub open spec fn is_waiting_spec(&self, root: Seq<u8>) -> bool {
        pm_has(self.entries(), root) && pm_at(self.entries(), root).any_slot()
    }

    /// Whether any slot is armed for this source.
    pub fn is_waiting(&self, root: &Peer) -> (r: bool)
        requires
            self.wf(),
        ensures
            r == self.is_waiting_spec(root@),
    {
        match self.inner_list.get(root) {
            Some(stats) => {
                let armed = stats.get(WaitStateType::JoinWait).is_some() || stats.get(
                    WaitStateType::JoinPre,
                ).is_some() || stats.get(WaitStateType::MergeWait).is_some() || stats.get(
                    WaitStateType::MergePre,
                ).is_some() || stats.get(WaitStateType::MergeCheck).is_some() || stats.get(
                    WaitStateType::GrantWait,
                ).is_some() || stats.get(WaitStateType::GrantJoin).is_some() || stats.get(
                    WaitStateType::GrantRecv,
                ).is_some() || stats.get(WaitStateType::GrantTotal).is_some() || stats.get(
                    WaitStateType::RetractWait,
                ).is_some() || stats.get(WaitStateType::RetractJoin).is_some() || stats.get(
                    WaitStateType::RetractRecv,
                ).is_some() || stats.get(WaitStateType::RetractTotal).is_some();
                armed
            },
            None => false,
        }
    }
}

/// After one source's record is replaced, every other source's slots read
/// as before.
proof fn lemma_slot_frame(before: &WaitList, after: &WaitList, peer: Seq<u8>)
    requires
        pm_wf(before.entries()),
        pm_wf(after.entries()),
        forall|i: int|
            0 <= i < before.entries().len() && (#[trigger] before.entries()[i]).0 != peer ==>
                pm_has(after.entries(), before.entries()[i].0) && pm_at(
                after.entries(),
                before.entries()[i].0,
            ) == before.entries()[i].1,
        forall|j: int|
            0 <= j < after.entries().len() && (#[trigger] after.entries()[j]).0 != peer ==> pm_has(
                before.entries(),
                after.entries()[j].0,
            ) && pm_at(before.entries(), after.entries()[j].0) == after.entries()[j].1,
    ensures
        forall|p2: Seq<u8>, t2: WaitStateType|
            p2 != peer ==> after.slot_of(p2, t2) == before.slot_of(p2, t2),
{
    assert forall|p2: Seq<u8>, t2: WaitStateType| p2 != peer implies after.slot_of(p2, t2)
        == before.slot_of(p2, t2) by {
        if pm_has(before.entries(), p2) {
            let i = pm_idx(before.entries(), p2);
            assert(before.entries()[i].0 == p2);
        }
        if pm_has(after.entries(), p2) {
            let j = pm_idx(after.entries(), p2);
            assert(after.entries()[j].0 == p2);
        }
    }
}

/// Timeout liveness: a slot armed at `t` with deadline `d` has not expired
/// at any instant within the window, has expired at any later instant, and
/// the checking read consumes it, so its timeout fires exactly once.
pub proof fn lemma_wait_timeout_liveness(ws: WaitState, t: u64, now: u64)
    requires
        ws.wait_timer.last_seen_spec() == Some(t),
        t <= now,
    ensures
        now - t <= ws.wait_timer.counter_spec() ==> !ws.wait_timer.spec_timed_out_at(now),
        now - t > ws.wait_timer.counter_spec() ==> ws.wait_timer.spec_timed_out_at(now),
{
}

} // verus!
