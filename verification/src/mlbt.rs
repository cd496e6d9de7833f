//! The MLBT relay-control plane: a per-source state machine that builds and
//! maintains a balanced multicast tree by exchanging JOIN / MERGE / GRANT /
//! RETRACT control messages, tracking pending requests under timeouts, and
//! adapting tree shape to measured latency and relay-interval weights.
//!
//! Two stores carry the protocol state: the term list holds each source's
//! logical state, and the wait list holds timed pending data. Every timed
//! datum belongs to some term, and `check_timers` recovers the term when the
//! datum expires, so the handlers may trust the terms they read.

use vstd::prelude::*;

use crate::identity::Peer;
use crate::codec::spec_u64_be;
use crate::mlbt_message::{
    RelayCtlMessage, RelayCtlMessageView, RelayMsgJoin, RelayMsgKind, RelayMsgLeave, RelayMsgMerge,
    RelayMsgMergeCheck,
};
use crate::mlbt_stat::MlbtStatList;
use crate::mlbt_wait::{WaitDataView, WaitList, WaitState, WaitStateData, WaitStateType, wait_id_of};
use crate::msg_header::RelayMethodKind;
use crate::peer_map::{PeerMap, pm_at, pm_has, pm_insert_rel, pm_wf};
use crate::route::{MAX_LINK, RouteTable, relay_sum};
use crate::utils::now_millis;

verus! {

/// The merge sub-state of an initializing source.
#[derive(Clone, Copy, Debug, PartialEq, Eq, Structural)]
pub enum MergeSubTerm {
    Idle,
    Request,
    PreMerge,
    Check,
}

/// The join sub-state of an established source.
#[derive(Clone, Copy, Debug, PartialEq, Eq, Structural)]
pub enum JoinSubTerm {
    Idle,
    Request,
    PreJoin,
}

/// The balancing sub-state of an established source.
#[derive(Clone, Copy, Debug, PartialEq, Eq, Structural)]
pub enum BalanceSubTerm {
    Idle,
    Grant,
    GrantCheck,
    GrantPre,
    GrantWait,
    Retract,
    RetractCheck,
    RetractPre,
}

/// One source's logical protocol state at this node.
#[derive(Clone, Copy, Debug, PartialEq, Eq, Structural)]
pub enum MlbtTerm {
    Idle,
    Init(MergeSubTerm),
    Wait,
    Estb(JoinSubTerm, BalanceSubTerm),
}

/// The term of each known source.
pub struct MlbtTermList {
    term_by_root: PeerMap<MlbtTerm>,
}

impl MlbtTermList {
    /// The entries, one per source.
    pub closed spec fn entries(&self) -> Seq<(Seq<u8>, MlbtTerm)> {
        self.term_by_root@
    }

    /// Each source appears once.
    pub open spec fn wf(&self) -> bool {
        pm_wf(self.entries())
    }

    /// The term for one source, if the source is known.
    pub open spec fn term_of(&self, root: Seq<u8>) -> Option<MlbtTerm> {
        if pm_has(self.entries(), root) {
            Some(pm_at(self.entries(), root))
        } else {
            None
        }
    }

    /// A term list that starts every source the route table knows in the
    /// idle term.
    pub fn new(route_ctl: &RouteTable) -> (r: Self)
        requires
            route_ctl.wf(),
        ensures
            r.wf(),
            forall|root: Seq<u8>|
                r.term_of(root) is Some ==> r.term_of(root) == Some(MlbtTerm::Idle),
    {
        let srcs = route_ctl.get_src_list();
        let mut term_by_root: PeerMap<MlbtTerm> = PeerMap::new();
        let n = srcs.len();
        let mut i: usize = 0;
        while i < n
            invariant
                n == srcs@.len(),
                i <= n,
                pm_wf(term_by_root@),
                forall|j: int|
                    0 <= j < term_by_root@.len() ==> (#[trigger] term_by_root@[j]).1
                        == MlbtTerm::Idle,
            decreases n - i,
        {
            term_by_root.insert(&srcs[i], MlbtTerm::Idle);
            i += 1;
        }
        let r = Self { term_by_root };
        proof {
            assert forall|root: Seq<u8>| r.term_of(root) is Some implies r.term_of(root) == Some(
                MlbtTerm::Idle,
            ) by {
                if pm_has(r.entries(), root) {
                    let k = crate::peer_map::pm_idx(r.entries(), root);
                    assert(r.entries()[k].1 == MlbtTerm::Idle);
                }
            }
        }
        r
    }

    /// The term for one source, if the source is known.
    pub fn get(&self, root: &Peer) -> (r: Option<MlbtTerm>)
        requires
            self.wf(),
        ensures
            r == self.term_of(root@),
    {
        match self.term_by_root.get(root) {
            Some(t) => Some(*t),
            None => None,
        }
    }

    /// Set the term for one source, adding the source if need be. Every
    /// other source keeps its term.
    pub fn set(&mut self, root: &Peer, v: MlbtTerm)
        requires
            old(self).wf(),
        ensures
            final(self).wf(),
            final(self).term_of(root@) == Some(v),
            forall|r2: Seq<u8>| r2 != root@ ==> final(self).term_of(r2) == old(self).term_of(r2),
            pm_insert_rel(old(self).entries(), final(self).entries(), root@, v),
    {
        self.term_by_root.insert(root, v);
        proof {
            assert forall|r2: Seq<u8>| r2 != root@ implies final(self).term_of(r2) == old(self).term_of(r2) by {
                lemma_term_frame(old(self).entries(), self.entries(), root@, r2);
            }
        }
    }
}

/// After one source's term is replaced, every other source's term reads as
/// before.
proof fn lemma_term_frame(
    s: Seq<(Seq<u8>, MlbtTerm)>,
    t: Seq<(Seq<u8>, MlbtTerm)>,
    root: Seq<u8>,
    r2: Seq<u8>,
)
    requires
        pm_wf(s),
        pm_wf(t),
        forall|i: int| 0 <= i < s.len() && s[i].0 != root ==> pm_has(t, s[i].0) && pm_at(t, s[i].0) == s[i].1,
        forall|j: int|
            0 <= j < t.len() ==> t[j].0 == root || (pm_has(s, t[j].0) && pm_at(s, t[j].0)
                == t[j].1),
        r2 != root,
    ensures
        (if pm_has(t, r2) {
            Some(pm_at(t, r2))
        } else {
            Option::<MlbtTerm>::None
        }) == (if pm_has(s, r2) {
            Some(pm_at(s, r2))
        } else {
            Option::<MlbtTerm>::None
        }),
{
    if pm_has(s, r2) {
        let i = crate::peer_map::pm_idx(s, r2);
        assert(s[i].0 == r2);
    }
    if pm_has(t, r2) {
        let j = crate::peer_map::pm_idx(t, r2);
        assert(t[j].0 == r2);
    }
}

/// The relay-control context: terms, sequence counter, timed waits,
/// statistics, and the grant/retract alternation bit.
pub struct MlbtRelayCtlContext {
    state: MlbtTermList,
    local_id: u64,
    wait_list: WaitList,
    mlbt_stat: MlbtStatList,
    grant_prev: bool,
}

impl MlbtRelayCtlContext {
    /// The term list.
    pub closed spec fn terms(&self) -> MlbtTermList {
        self.state
    }

    /// The per-node sequence counter.
    pub closed spec fn seq_spec(&self) -> u64 {
        self.local_id
    }

    /// The wait list.
    pub closed spec fn waits(&self) -> WaitList {
        self.wait_list
    }

    /// The statistics store.
    pub closed spec fn stats(&self) -> MlbtStatList {
        self.mlbt_stat
    }

    /// The grant/retract alternation bit.
    pub closed spec fn grant_prev_spec(&self) -> bool {
        self.grant_prev
    }

    /// Every store is structurally sound.
    pub open spec fn wf(&self) -> bool {
        self.terms().wf() && self.waits().wf() && self.stats().wf()
    }

    /// A fresh context over the route table's sources, all idle.
    pub fn new(route_ctl: &RouteTable) -> (r: Self)
        requires
            route_ctl.wf(),
        ensures
            r.wf(),
            r.seq_spec() == 0,
            r.grant_prev_spec() == false,
    {
        Self {
            local_id: 0,
            state: MlbtTermList::new(route_ctl),
            wait_list: WaitList::new(),
            mlbt_stat: MlbtStatList::new(),
            grant_prev: false,
        }
    }

    /// The relay scheme this plane implements.
    pub fn get_relay_method(&self) -> (r: RelayMethodKind)
        ensures
            r == RelayMethodKind::LOOKUP_TABLE_1,
    {
        RelayMethodKind::LOOKUP_TABLE_1
    }

    /// The statistics store, for measurement updates and tests.
    pub fn stat_mut(&mut self) -> (r: &mut MlbtStatList)
        ensures
            *r == old(self).stats(),
            final(self).stats() == *final(r),
            final(self).terms() == old(self).terms(),
            final(self).waits() == old(self).waits(),
            final(self).seq_spec() == old(self).seq_spec(),
            final(self).grant_prev_spec() == old(self).grant_prev_spec(),
    {
        &mut self.mlbt_stat
    }

    /// The sequence counter's current value.
    pub fn seq_val(&self) -> (r: u64)
        ensures
            r == self.seq_spec(),
    {
        self.local_id
    }

    /// The term for one source, if the source is known.
    pub fn term(&self, root: &Peer) -> (r: Option<MlbtTerm>)
        requires
            self.wf(),
        ensures
            r == self.terms().term_of(root@),
    {
        self.state.get(root)
    }

    /// Set the term for one source directly: the bootstrap and deterministic
    /// tests start sources in a chosen term this way.
    pub fn set_term(&mut self, root: &Peer, v: MlbtTerm)
        requires
            old(self).wf(),
        ensures
            final(self).wf(),
            final(self).terms().term_of(root@) == Some(v),
            final(self).waits() == old(self).waits(),
            final(self).stats() == old(self).stats(),
            final(self).seq_spec() == old(self).seq_spec(),
            final(self).grant_prev_spec() == old(self).grant_prev_spec(),
            forall|r2: Seq<u8>|
                r2 != root@ ==> final(self).terms().term_of(r2) == old(self).terms().term_of(r2),
    {
        self.state.set(root, v);
    }

    /// The next sequence number. Sequence numbers are monotonic; the counter
    /// must not have reached its cap.
    fn seq(&mut self) -> (r: u64)
        requires
            old(self).seq_spec() < u64::MAX,
        ensures
            r == old(self).seq_spec() + 1,
            final(self).seq_spec() == old(self).seq_spec() + 1,
            final(self).terms() == old(self).terms(),
            final(self).waits() == old(self).waits(),
            final(self).stats() == old(self).stats(),
            final(self).grant_prev_spec() == old(self).grant_prev_spec(),
    {
        self.local_id = self.local_id + 1;
        self.local_id
    }

    /// Form a join request toward `target` for `src`'s tree: arm the
    /// join-wait slot and hand back the JOIN message to send.
    pub fn join(&mut self, target: &Peer, src: &Peer) -> (r: Option<(Peer, RelayCtlMessage)>)
        requires
            old(self).wf(),
            old(self).seq_spec() < u64::MAX,
        ensures
            final(self).wf(),
            final(self).terms() == old(self).terms(),
            final(self).stats() == old(self).stats(),
            final(self).seq_spec() == old(self).seq_spec() + 1,
            r matches Some((to, m)) && to@ == target@ && m@.kind == RelayMsgKind::JOIN && m@.id
                == old(self).seq_spec() + 1 && m@.payload == src@,
            final(self).waits().slot_of(src@, WaitStateType::JoinWait) matches Some(ws)
                && ws.inner@.kind == WaitStateType::JoinWait && ws.inner@.src == src@
                && ws.inner@.peer == target@ && ws.inner@.id == old(self).seq_spec() + 1,
            forall|p2: Seq<u8>, t2: WaitStateType|
                p2 != src@ || t2 != WaitStateType::JoinWait ==> final(self).waits().slot_of(
                    p2,
                    t2,
                ) == old(self).waits().slot_of(p2, t2),
    {
        let req_seq = self.seq();
        self.wait_list.set(
            src,
            WaitStateData::JoinWait((src.clone(), target.clone(), req_seq)),
        );
        let payload = match (RelayMsgJoin::new(src.clone())).into_bytes() {
            Ok(b) => b,
            Err(_) => {
                return None;
            },
        };
        Some((target.clone(), RelayCtlMessage::new(RelayMsgKind::JOIN, req_seq, payload)))
    }

    /// Answer an incoming JOIN for `src`'s tree from `sender`.
    ///
    /// The route table is never touched here: a new child is only linked in
    /// once the three-way confirmation lands, in `join_pre_cb`. In
    /// particular, at the link budget every join is refused.
    pub fn join_cb(&mut self, route_ctl: &mut RouteTable, sender: &Peer, msg: &RelayCtlMessage) -> (r: Option<(Peer, RelayCtlMessage)>)
        requires
            old(self).wf(),
            old(route_ctl).wf(),
            old(self).seq_spec() < u64::MAX,
        ensures
            final(self).wf(),
            final(route_ctl).wf(),
            join_cb_post(
                *old(self),
                *old(route_ctl),
                sender@,
                msg@,
                *final(self),
                *final(route_ctl),
                r,
            ),
    {
        let payload = msg.payload();
        let join_msg = match RelayMsgJoin::from_bytes(payload.as_slice()) {
            Ok(m) => m,
            Err(_) => {
                return None;
            },
        };
        if route_ctl.get_relay_count() >= MAX_LINK {
            return Some((sender.clone(), msg.reject(self.seq())));
        }
        let term = match self.state.get(join_msg.src()) {
            Some(t) => t,
            None => {
                return None;
            },
        };
        match term {
            MlbtTerm::Estb(_, _) => {
                if !self.wait_list.is_waiting(join_msg.src()) {
                    let ack = msg.accept(self.seq());
                    self.wait_list.set(
                        join_msg.src(),
                        WaitStateData::JoinPre(
                            (join_msg.src().clone(), sender.clone(), ack.msg_id()),
                        ),
                    );
                    return Some((sender.clone(), ack));
                }
                let tie = match self.wait_list.get(join_msg.src(), WaitStateType::JoinWait) {
                    Some(WaitStateData::JoinWait((_, cand, _))) => cand == *sender
                        && route_ctl.local_id().gt(sender),
                    _ => false,
                };
                if tie {
                    let ack = msg.accept(self.seq());
                    self.wait_list.clear(join_msg.src(), WaitStateType::JoinWait);
                    self.wait_list.set(
                        join_msg.src(),
                        WaitStateData::JoinPre(
                            (join_msg.src().clone(), sender.clone(), ack.msg_id()),
                        ),
                    );
                    Some((sender.clone(), ack))
                } else {
                    Some((sender.clone(), msg.reject(self.seq())))
                }
            },
            _ => Some((sender.clone(), msg.reject(self.seq()))),
        }
    }

    /// Handle the answer to our earlier JOIN for `src` toward `waitfor`.
    /// The join-wait slot is disarmed either way; on acceptance the target
    /// becomes our delegate and a confirming ACCEPT closes the three-way
    /// handshake.
    pub fn join_wait_cb(
        &mut self,
        route_ctl: &mut RouteTable,
        src: &Peer,
        waitfor: &Peer,
        incoming_id: u64,
        accepted: bool,
    ) -> (r: Option<(Peer, RelayCtlMessage)>)
        requires
            old(self).wf(),
            old(route_ctl).wf(),
            old(self).seq_spec() < u64::MAX,
        ensures
            final(self).wf(),
            final(route_ctl).wf(),
            join_wait_cb_post(
                *old(self),
                *old(route_ctl),
                src@,
                waitfor@,
                incoming_id,
                accepted,
                *final(self),
                *final(route_ctl),
                r,
            ),
    {
        self.wait_list.clear(src, WaitStateType::JoinWait);
        if accepted {
            route_ctl.reg_delegate(src, waitfor);
            let ack_seq = self.seq();
            let ack = crate::mlbt_message::RelayMsgAccept::from_id(incoming_id);
            return Some(
                (waitfor.clone(), RelayCtlMessage::new(RelayMsgKind::ACCEPT, ack_seq, ack.into_bytes())),
            );
        }
        None
    }

    /// Handle the confirmation of a join we accepted earlier: the join-pre
    /// slot is disarmed either way, and on confirmation the subscriber is
    /// linked in as a child (within the link budget).
    pub fn join_pre_cb(
        &mut self,
        route_ctl: &mut RouteTable,
        src: &Peer,
        waitfor: &Peer,
        accepted: bool,
    )
        requires
            old(self).wf(),
            old(route_ctl).wf(),
        ensures
            final(self).wf(),
            final(route_ctl).wf(),
            join_pre_cb_post(
                *old(self),
                *old(route_ctl),
                src@,
                waitfor@,
                accepted,
                *final(self),
                *final(route_ctl),
            ),
    {
        self.wait_list.clear(src, WaitStateType::JoinPre);
        if accepted {
            let ghost s0 = route_ctl.relay_spec();
            route_ctl.insert_relay(src, waitfor);
            proof {
                if relay_sum(s0) < MAX_LINK && !crate::route::relay_has_child(
                    s0,
                    src@,
                    waitfor@,
                ) {
                    let ids = crate::identity::ids_of(
                        pm_at(route_ctl.relay_spec(), src@)@,
                    );
                    assert(ids[ids.len() - 1] == waitfor@);
                    assert(ids.contains(waitfor@));
                }
            }
        }
    }

    /// Handle a LEAVE for `src`'s tree from `sender`: the sender stops being
    /// a child. An ill-formed payload is dropped.
    pub fn leave_cb(&mut self, route_ctl: &mut RouteTable, sender: &Peer, msg: &RelayCtlMessage)
        requires
            old(self).wf(),
            old(route_ctl).wf(),
        ensures
            final(self).wf(),
            final(route_ctl).wf(),
            leave_cb_post(
                *old(self),
                *old(route_ctl),
                sender@,
                msg@,
                *final(self),
                *final(route_ctl),
            ),
    {
        let payload = msg.payload();
        match RelayMsgLeave::from_bytes(payload.as_slice()) {
            Ok(leave_msg) => {
                let ghost s0 = route_ctl.relay_spec();
                route_ctl.remove_relay(leave_msg.src(), sender);
                proof {
                    if crate::route::relay_has_child(s0, msg@.payload, sender@) {
                        let old_ids = crate::identity::ids_of(pm_at(s0, msg@.payload)@);
                        let fidx = crate::identity::id_index(old_ids, sender@);
                        let new_ids = old_ids.remove(fidx);
                        assert(old_ids[fidx] == sender@ && 0 <= fidx < old_ids.len());
                        let stored = pm_at(s0, msg@.payload)@;
                        assert(!new_ids.contains(sender@)) by {
                            if new_ids.contains(sender@) {
                                let j = choose|j: int|
                                    0 <= j < new_ids.len() && new_ids[j] == sender@;
                                let oj: int = if j < fidx {
                                    j
                                } else {
                                    j + 1
                                };
                                assert(old_ids[oj] == sender@);
                                assert(stored[oj]@ == old_ids[oj]);
                                assert(stored[fidx]@ == old_ids[fidx]);
                                let k = crate::peer_map::pm_idx(s0, msg@.payload);
                                assert(crate::identity::peers_nodup(s0[k].1@));
                            }
                        }
                    }
                }
            },
            Err(_) => {},
        }
    }

    /// Form a merge proposal for `src`'s tree toward `target`: only when
    /// both the local weight and threshold are known; then the merge-wait
    /// slot is armed, the term moves to the requesting sub-state, and the
    /// MERGE message carries weight, threshold and source.
    pub fn merge(&mut self, src: &Peer, target: &Peer) -> (r: Option<(Peer, RelayCtlMessage)>)
        requires
            old(self).wf(),
            old(self).seq_spec() < u64::MAX,
        ensures
            final(self).wf(),
            final(self).stats() == old(self).stats(),
            !(pm_has(old(self).stats().trees_spec(), src@)) ==> r is None && *final(self) == *old(self),
            pm_has(old(self).stats().trees_spec(), src@) ==> {
                let stat = pm_at(old(self).stats().trees_spec(), src@);
                &&& final(self).seq_spec() == old(self).seq_spec() + 1
                &&& (r matches Some((to, m)) && to@ == target@ && m@.kind == RelayMsgKind::MERGE
                    && m@.id == old(self).seq_spec() + 1 && m@.payload
                    == crate::mlbt_message::spec_merge_body(stat.relay_inv, stat.merge_thrd, src@))
                &&& final(self).terms().term_of(src@) == Some(MlbtTerm::Init(MergeSubTerm::Request))
                &&& (final(self).waits().slot_of(src@, WaitStateType::MergeWait) matches Some(ws)
                    && ws.inner@.kind == WaitStateType::MergeWait && ws.inner@.src == src@
                    && ws.inner@.peer == target@ && ws.inner@.id == old(self).seq_spec() + 1)
                &&& (forall|p2: Seq<u8>, t2: WaitStateType|
                    p2 != src@ || t2 != WaitStateType::MergeWait ==> final(self).waits().slot_of(
                        p2,
                        t2,
                    ) == old(self).waits().slot_of(p2, t2))
                &&& (forall|r2: Seq<u8>|
                    r2 != src@ ==> final(self).terms().term_of(r2) == old(self).terms().term_of(
                        r2,
                    ))
            },
    {
        let weight = match self.mlbt_stat.relay_inv(src) {
            Some(w) => w,
            None => {
                return None;
            },
        };
        let merge_thrd = match self.mlbt_stat.merge_thrd(src) {
            Some(t) => t,
            None => {
                return None;
            },
        };
        let msg_seq = self.seq();
        self.state.set(src, MlbtTerm::Init(MergeSubTerm::Request));
        self.wait_list.set(
            src,
            WaitStateData::MergeWait((src.clone(), target.clone(), msg_seq)),
        );
        let payload = match (RelayMsgMerge::new(weight, merge_thrd, src.clone())).into_bytes() {
            Ok(b) => b,
            Err(_) => {
                return None;
            },
        };
        Some((target.clone(), RelayCtlMessage::new(RelayMsgKind::MERGE, msg_seq, payload)))
    }

    /// Whether two weights are within the joint threshold: the absolute
    /// difference is under the smaller of the two thresholds.
    pub open spec fn spec_merge_cond(
        remote_weight: u64,
        local_weight: u64,
        remote_thrd: u64,
        local_thrd: u64,
    ) -> bool {
        abs_diff(remote_weight as int, local_weight as int) < min_u64(remote_thrd, local_thrd)
    }

    /// Answer an incoming MERGE proposal from `sender`: refuse when the
    /// weights are too far apart or the term is not merge-idle; otherwise
    /// accept, arm the merge-pre slot and move to the pre-merge sub-state.
    /// Missing local statistics drop the proposal.
    pub fn merge_cb(&mut self, route_ctl: &mut RouteTable, sender: &Peer, msg: &RelayCtlMessage) -> (r: Option<(Peer, RelayCtlMessage)>)
        requires
            old(self).wf(),
            old(route_ctl).wf(),
            old(self).seq_spec() < u64::MAX,
        ensures
            final(self).wf(),
            final(route_ctl).wf(),
            merge_cb_post(
                *old(self),
                *old(route_ctl),
                sender@,
                msg@,
                *final(self),
                *final(route_ctl),
                r,
            ),
    {
        let payload = msg.payload();
        let merge_msg = match RelayMsgMerge::from_bytes(payload.as_slice()) {
            Ok(m) => m,
            Err(_) => {
                return None;
            },
        };
        let local_weight = match self.mlbt_stat.relay_inv(merge_msg.src()) {
            Some(w) => w,
            None => {
                return None;
            },
        };
        let local_thrd = match self.mlbt_stat.merge_thrd(merge_msg.src()) {
            Some(t) => t,
            None => {
                return None;
            },
        };
        let remote_weight = merge_msg.weight();
        let weight_diff: u64 = if remote_weight > local_weight {
            remote_weight - local_weight
        } else {
            local_weight - remote_weight
        };
        let thrd: u64 = if merge_msg.merge_thrd() < local_thrd {
            merge_msg.merge_thrd()
        } else {
            local_thrd
        };
        if !(weight_diff < thrd) {
            return Some((sender.clone(), msg.reject(self.seq())));
        }
        match self.state.get(merge_msg.src()) {
            Some(MlbtTerm::Init(MergeSubTerm::Idle)) => {
                self.state.set(merge_msg.src(), MlbtTerm::Init(MergeSubTerm::PreMerge));
                self.wait_list.set(
                    merge_msg.src(),
                    WaitStateData::MergePre(
                        (merge_msg.src().clone(), sender.clone(), msg.msg_id()),
                    ),
                );
                Some((sender.clone(), msg.accept(self.seq())))
            },
            Some(_) => Some((sender.clone(), msg.reject(self.seq()))),
            None => None,
        }
    }

    /// Handle the answer to our earlier MERGE for `src` toward `waitfor`.
    /// The merge-wait slot is disarmed either way; on acceptance the
    /// merge-pre slot takes over and a confirming ACCEPT goes back; on
    /// refusal the term returns to merge-idle.
    pub fn merge_wait_cb(
        &mut self,
        src: &Peer,
        waitfor: &Peer,
        incoming_id: u64,
        accepted: bool,
    ) -> (r: Option<(Peer, RelayCtlMessage)>)
        requires
            old(self).wf(),
            old(self).seq_spec() < u64::MAX,
        ensures
            final(self).wf(),
            merge_wait_cb_post(
                *old(self),
                src@,
                waitfor@,
                incoming_id,
                accepted,
                *final(self),
                r,
            ),
    {
        self.wait_list.clear(src, WaitStateType::MergeWait);
        if accepted {
            let ack_seq = self.seq();
            self.wait_list.set(
                src,
                WaitStateData::MergePre((src.clone(), waitfor.clone(), ack_seq)),
            );
            let ack = crate::mlbt_message::RelayMsgAccept::from_id(incoming_id);
            Some((waitfor.clone(), RelayCtlMessage::new(RelayMsgKind::ACCEPT, ack_seq, ack.into_bytes())))
        } else {
            self.state.set(src, MlbtTerm::Init(MergeSubTerm::Idle));
            None
        }
    }

    /// Handle the confirmation of a merge we agreed to: the merge-pre slot
    /// is disarmed either way. On confirmation the tie is broken by peer id:
    /// the larger id stays root and adopts the other as its first child; the
    /// smaller id moves to the waiting term behind the new root as its
    /// delegate. On refusal the term returns to merge-idle.
    pub fn merge_pre_cb(
        &mut self,
        route_ctl: &mut RouteTable,
        src: &Peer,
        waitfor: &Peer,
        accepted: bool,
    )
        requires
            old(self).wf(),
            old(route_ctl).wf(),
        ensures
            final(self).wf(),
            final(route_ctl).wf(),
            merge_pre_cb_post(
                *old(self),
                *old(route_ctl),
                src@,
                waitfor@,
                accepted,
                *final(self),
                *final(route_ctl),
            ),
    {
        self.wait_list.clear(src, WaitStateType::MergePre);
        if accepted {
            if route_ctl.local_id().gt(waitfor) {
                self.state.set(src, MlbtTerm::Estb(JoinSubTerm::Idle, BalanceSubTerm::Idle));
                let ghost s0 = route_ctl.relay_spec();
                route_ctl.insert_front_relay(src, waitfor);
                proof {
                    if relay_sum(s0) < MAX_LINK && !crate::route::relay_has_child(
                        s0,
                        src@,
                        waitfor@,
                    ) {
                        let ids = crate::identity::ids_of(
                            pm_at(route_ctl.relay_spec(), src@)@,
                        );
                        assert(ids[0] == waitfor@);
                        assert(ids.contains(waitfor@));
                    }
                }
            } else {
                self.state.set(src, MlbtTerm::Wait);
                route_ctl.reg_delegate(src, waitfor);
            }
        } else {
            self.state.set(src, MlbtTerm::Init(MergeSubTerm::Idle));
        }
    }

    /// A pre-merge that heard nothing in time returns to merge-idle; other
    /// terms are left alone.
    pub fn merge_pre_timeout_cb(&mut self, src: &Peer)
        requires
            old(self).wf(),
        ensures
            final(self).wf(),
            final(self).stats() == old(self).stats(),
            final(self).seq_spec() == old(self).seq_spec(),
            final(self).grant_prev_spec() == old(self).grant_prev_spec(),
            final(self).waits().slot_of(src@, WaitStateType::MergePre) is None,
            old(self).terms().term_of(src@) == Some(MlbtTerm::Init(MergeSubTerm::PreMerge))
                ==> final(self).terms().term_of(src@) == Some(MlbtTerm::Init(MergeSubTerm::Idle)),
            old(self).terms().term_of(src@) != Some(MlbtTerm::Init(MergeSubTerm::PreMerge))
                ==> final(self).terms() == old(self).terms(),
    {
        self.wait_list.clear(src, WaitStateType::MergePre);
        match self.state.get(src) {
            Some(MlbtTerm::Init(MergeSubTerm::PreMerge)) => {
                self.state.set(src, MlbtTerm::Init(MergeSubTerm::Idle));
            },
            _ => {},
        }
    }

    /// Send a check to the root of `src`'s tree that a pending merge is
    /// still wanted: arm the merge-check slot with both the confirmation id
    /// and the fresh check id.
    pub fn merge_ck(&mut self, src: &Peer, target: &Peer, confirm_id: u64, weight: u64) -> (r:
        Option<(Peer, RelayCtlMessage)>)
        requires
            old(self).wf(),
            old(self).seq_spec() < u64::MAX,
        ensures
            final(self).wf(),
            final(self).terms() == old(self).terms(),
            final(self).stats() == old(self).stats(),
            r matches Some((to, m)) && to@ == src@ && m@.kind == RelayMsgKind::MERGE_CHECK && m@.id
                == old(self).seq_spec() + 1 && m@.payload == spec_u64_be(weight),
            final(self).waits().slot_of(src@, WaitStateType::MergeCheck) matches Some(ws)
                && ws.inner@.kind == WaitStateType::MergeCheck && ws.inner@.src == src@
                && ws.inner@.peer == target@ && ws.inner@.confirm == confirm_id && ws.inner@.id
                == old(self).seq_spec() + 1,
    {
        let msg_seq = self.seq();
        self.wait_list.set(
            src,
            WaitStateData::MergeCheck((src.clone(), target.clone(), confirm_id, msg_seq)),
        );
        let payload = match (RelayMsgMergeCheck::new(weight)).into_bytes() {
            Ok(b) => b,
            Err(_) => {
                return None;
            },
        };
        Some((src.clone(), RelayCtlMessage::new(RelayMsgKind::MERGE_CHECK, msg_seq, payload)))
    }

    /// Answer a MERGE_CHECK as the root of our own tree: while still
    /// initializing, a proposer whose weight does not exceed ours is told to
    /// go ahead, a heavier one is refused; in any other term the probe is
    /// dropped, as it is when our own weight is unknown.
    pub fn merge_ck_cb(&mut self, route_ctl: &mut RouteTable, sender: &Peer, msg: &RelayCtlMessage) -> (r: Option<(Peer, RelayCtlMessage)>)
        requires
            old(self).wf(),
            old(route_ctl).wf(),
            old(self).seq_spec() < u64::MAX,
        ensures
            final(self).wf(),
            final(route_ctl).wf(),
            merge_ck_cb_post(
                *old(self),
                *old(route_ctl),
                sender@,
                msg@,
                *final(self),
                *final(route_ctl),
                r,
            ),
    {
        let payload = msg.payload();
        let check_msg = match RelayMsgMergeCheck::from_bytes(payload.as_slice()) {
            Ok(m) => m,
            Err(_) => {
                return None;
            },
        };
        let local = route_ctl.local_id();
        match self.state.get(&local) {
            Some(MlbtTerm::Init(_)) => {
                let cw = match self.mlbt_stat.relay_inv(&local) {
                    Some(w) => w,
                    None => {
                        return None;
                    },
                };
                if check_msg.weight() > cw {
                    Some((sender.clone(), msg.reject(self.seq())))
                } else {
                    Some((sender.clone(), msg.accept(self.seq())))
                }
            },
            _ => None,
        }
    }

    /// Handle the root's answer to our MERGE_CHECK: the merge-check slot is
    /// disarmed, the term returns to merge-idle, and the stored confirmation
    /// id is forwarded to the merge target — as an ACCEPT when the root
    /// agreed, as a REJECT when it did not.
    pub fn merge_ck_res_cb(
        &mut self,
        src: &Peer,
        merge_target: &Peer,
        confirm_id: u64,
        accepted: bool,
    ) -> (r: Option<(Peer, RelayCtlMessage)>)
        requires
            old(self).wf(),
            old(self).seq_spec() < u64::MAX,
        ensures
            final(self).wf(),
            merge_ck_res_cb_post(
                *old(self),
                src@,
                merge_target@,
                confirm_id,
                accepted,
                *final(self),
                r,
            ),
    {
        self.wait_list.clear(src, WaitStateType::MergeCheck);
        self.state.set(src, MlbtTerm::Init(MergeSubTerm::Idle));
        let reply_seq = self.seq();
        if accepted {
            let ack = crate::mlbt_message::RelayMsgAccept::from_id(confirm_id);
            Some((merge_target.clone(), RelayCtlMessage::new(RelayMsgKind::ACCEPT, reply_seq, ack.into_bytes())))
        } else {
            let nack = crate::mlbt_message::RelayMsgReject::from_id(confirm_id);
            Some((merge_target.clone(), RelayCtlMessage::new(RelayMsgKind::REJECT, reply_seq, nack.into_bytes())))
        }
    }

    /// Alternate between a grant probe and a retract probe, one per
    /// heartbeat: the fresh alternation bit picks which probe runs, and the
    /// result and state change are that probe's.
    pub fn try_balance(&mut self, src: &Peer, route_ctl: &RouteTable) -> (r: Option<
        (Peer, RelayCtlMessage),
    >)
        requires
            old(self).wf(),
            route_ctl.wf(),
            old(self).seq_spec() < u64::MAX,
        ensures
            final(self).wf(),
            final(self).grant_prev_spec() == !old(self).grant_prev_spec(),
            final(self).stats() == old(self).stats(),
            old(self).seq_spec() <= final(self).seq_spec() <= old(self).seq_spec() + 1,
            forall|r2: Seq<u8>|
                r2 != src@ ==> final(self).terms().term_of(r2) == old(self).terms().term_of(r2),
            forall|p2: Seq<u8>, t2: WaitStateType|
                p2 != src@ || (t2 != WaitStateType::GrantWait && t2 != WaitStateType::GrantTotal
                    && t2 != WaitStateType::RetractWait) ==> final(self).waits().slot_of(p2, t2)
                    == old(self).waits().slot_of(p2, t2),
            r is None ==> final(self).terms() == old(self).terms() && final(self).waits() == old(self).waits() && final(self).seq_spec() == old(self).seq_spec(),
            !old(self).grant_prev_spec() ==> {
                &&& (r is None ==> (forall|a: int, b: int|
                    !grant_eligible(
                        old(self).stats(),
                        src@,
                        relay_children(route_ctl.relay_spec(), src@),
                        a,
                        b,
                    )))
                &&& (r matches Some((to, m)) ==> m@.kind == RelayMsgKind::GRANT && final(self).terms().term_of(src@) == Some(
                    MlbtTerm::Estb(JoinSubTerm::Idle, BalanceSubTerm::Grant),
                ))
            },
            old(self).grant_prev_spec() ==> {
                &&& (r is None ==> (forall|a: int, b: int|
                    !retract_eligible(
                        old(self).stats(),
                        src@,
                        relay_children(route_ctl.relay_spec(), src@),
                        a,
                        b,
                    )))
                &&& (r matches Some((to, m)) ==> m@.kind == RelayMsgKind::RETRACT && final(self).terms().term_of(src@) == Some(
                    MlbtTerm::Estb(JoinSubTerm::Idle, BalanceSubTerm::Retract),
                ))
            },
    {
        self.grant_prev = !self.grant_prev;
        if self.grant_prev {
            self.try_grant(src, route_ctl)
        } else {
            self.try_retract(src, route_ctl)
        }
    }

    /// Scan `src`'s children for a pair `(g, desc)` whose measured
    /// intervals say `g` would be served faster through `desc`, and if one
    /// exists propose the hand-over to `desc`: the term moves to the grant
    /// sub-state and the grant-wait and grant-total slots are armed.
    #[verifier::loop_isolation(false)]
    pub fn try_grant(&mut self, src: &Peer, route_ctl: &RouteTable) -> (r: Option<
        (Peer, RelayCtlMessage),
    >)
        requires
            old(self).wf(),
            route_ctl.wf(),
            old(self).seq_spec() < u64::MAX,
        ensures
            final(self).wf(),
            final(self).stats() == old(self).stats(),
            final(self).grant_prev_spec() == old(self).grant_prev_spec(),
            old(self).seq_spec() <= final(self).seq_spec() <= old(self).seq_spec() + 1,
            r is None ==> *final(self) == *old(self) && (forall|a: int, b: int|
                !grant_eligible(
                    old(self).stats(),
                    src@,
                    relay_children(route_ctl.relay_spec(), src@),
                    a,
                    b,
                )),
            r matches Some((to, m)) ==> {
                let children = relay_children(route_ctl.relay_spec(), src@);
                exists|a: int, b: int|
                    #![trigger grant_eligible(old(self).stats(), src@, children, a, b)]
                    grant_eligible(old(self).stats(), src@, children, a, b) && to@ == children[b]
                        && m@.kind == RelayMsgKind::GRANT && m@.payload
                        == crate::mlbt_message::spec_grant_body(
                        children[a],
                        pm_at(old(self).stats().trees_spec(), src@).src_inv,
                        src@,
                    ) && final(self).terms().term_of(src@) == Some(
                        MlbtTerm::Estb(JoinSubTerm::Idle, BalanceSubTerm::Grant),
                    ) && (final(self).waits().slot_of(src@, WaitStateType::GrantWait)
                        matches Some(ws) && ws.inner@.kind == WaitStateType::GrantWait
                        && ws.inner@.src == src@ && ws.inner@.peer == children[b]) && (final(self).waits().slot_of(src@, WaitStateType::GrantTotal) matches Some(wt)
                        && wt.inner@.kind == WaitStateType::GrantTotal && wt.inner@.src == src@
                        && wt.inner@.peer == children[b]) && (forall|r2: Seq<u8>|
                        r2 != src@ ==> final(self).terms().term_of(r2)
                            == old(self).terms().term_of(r2)) && (forall|
                        p2: Seq<u8>,
                        t2: WaitStateType,
                    |
                        p2 != src@ || (t2 != WaitStateType::GrantWait && t2
                            != WaitStateType::GrantTotal) ==> final(self).waits().slot_of(p2, t2)
                            == old(self).waits().slot_of(p2, t2))
            },
    {
        let oi = match self.mlbt_stat.src_inv(src) {
            Some(v) => v,
            None => {
                proof {
                    lemma_no_tree_no_grant(
                        self.stats(),
                        src@,
                        relay_children(route_ctl.relay_spec(), src@),
                    );
                }
                return None;
            },
        };
        let desc_list = route_ctl.get_relay(src);
        let ghost children = relay_children(route_ctl.relay_spec(), src@);
        proof {
            assert(crate::identity::ids_of(desc_list@) =~= children);
        }
        let n = desc_list.len();
        let mut a: usize = 0;
        while a < n
            invariant
                self.wf(),
                *self == *old(self),
                route_ctl.wf(),
                n == desc_list@.len(),
                a <= n,
                oi == pm_at(self.stats().trees_spec(), src@).src_inv,
                pm_has(self.stats().trees_spec(), src@),
                crate::identity::ids_of(desc_list@) == children,
                forall|x: int, y: int|
                    0 <= x < a ==> !grant_eligible(self.stats(), src@, children, x, y),
            decreases n - a,
        {
            let dim = match self.mlbt_stat.delay_ts(&desc_list[a]) {
                Some(v) => Some(v),
                None => None,
            };
            match dim {
                Some(dim) => {
                    let mut b: usize = 0;
                    while b < n
                        invariant
                            self.wf(),
                            *self == *old(self),
                            route_ctl.wf(),
                            n == desc_list@.len(),
                            a < n,
                            b <= n,
                            oi == pm_at(self.stats().trees_spec(), src@).src_inv,
                            pm_has(self.stats().trees_spec(), src@),
                            pm_has(self.stats().neighbours_spec(), desc_list@[a as int]@),
                            dim == pm_at(
                                self.stats().neighbours_spec(),
                                desc_list@[a as int]@,
                            ).delay_ts,
                            crate::identity::ids_of(desc_list@) == children,
                            forall|x: int, y: int|
                                0 <= x < a ==> !grant_eligible(self.stats(), src@, children, x, y),
                            forall|y: int|
                                0 <= y < b ==> !grant_eligible(
                                    self.stats(),
                                    src@,
                                    children,
                                    a as int,
                                    y,
                                ),
                        decreases n - b,
                    {
                        if b != a {
                            match self.mlbt_stat.src_inv_desc(src, &desc_list[b]) {
                                Some(oj) => {
                                    if (oi as u128) + (oj as u128) > (dim as u128) {
                                        proof {
                                            assert(grant_eligible(
                                                self.stats(),
                                                src@,
                                                children,
                                                a as int,
                                                b as int,
                                            ));
                                        }
                                        let msg_seq = self.seq();
                                        self.state.set(
                                            src,
                                            MlbtTerm::Estb(JoinSubTerm::Idle, BalanceSubTerm::Grant),
                                        );
                                        self.wait_list.set(
                                            src,
                                            WaitStateData::GrantWait(
                                                (src.clone(), desc_list[b].clone(), msg_seq),
                                            ),
                                        );
                                        self.wait_list.set(
                                            src,
                                            WaitStateData::GrantTotal(
                                                (src.clone(), desc_list[b].clone()),
                                            ),
                                        );
                                        let grant = crate::mlbt_message::RelayMsgGrant::new(
                                            desc_list[a].clone(),
                                            oi,
                                            src.clone(),
                                        );
                                        let payload = match grant.into_bytes() {
                                            Ok(p) => p,
                                            Err(_) => {
                                                return None;
                                            },
                                        };
                                        return Some(
                                            (
                                                desc_list[b].clone(),
                                                RelayCtlMessage::new(
                                                    RelayMsgKind::GRANT,
                                                    msg_seq,
                                                    payload,
                                                ),
                                            ),
                                        );
                                    }
                                },
                                None => {},
                            }
                        }
                        b += 1;
                    }
                },
                None => {
                    proof {
                        assert forall|y: int|
                            !grant_eligible(
                                self.stats(),
                                src@,
                                children,
                                a as int,
                                y,
                            ) by {}
                    }
                },
            }
            a += 1;
        }
        None
    }

    /// Scan `src`'s children for one whose observed interval exceeds our
    /// own by more than the lightest child's delay, and if one exists ask it
    /// to give up a child: the term moves to the retract sub-state and the
    /// retract-wait slot is armed.
    #[verifier::loop_isolation(false)]
    pub fn try_retract(&mut self, src: &Peer, route_ctl: &RouteTable) -> (r: Option<
        (Peer, RelayCtlMessage),
    >)
        requires
            old(self).wf(),
            route_ctl.wf(),
            old(self).seq_spec() < u64::MAX,
        ensures
            final(self).wf(),
            final(self).stats() == old(self).stats(),
            final(self).grant_prev_spec() == old(self).grant_prev_spec(),
            old(self).seq_spec() <= final(self).seq_spec() <= old(self).seq_spec() + 1,
            r is None ==> *final(self) == *old(self) && (forall|a: int, b: int|
                !retract_eligible(
                    old(self).stats(),
                    src@,
                    relay_children(route_ctl.relay_spec(), src@),
                    a,
                    b,
                )),
            r matches Some((to, m)) ==> {
                let children = relay_children(route_ctl.relay_spec(), src@);
                let stat = pm_at(old(self).stats().trees_spec(), src@);
                &&& pm_has(old(self).stats().trees_spec(), src@)
                &&& children.contains(to@)
                &&& m@.kind == RelayMsgKind::RETRACT
                &&& m@.payload == crate::mlbt_message::spec_retract_body(src@, stat.src_inv)
                &&& pm_has(stat.src_inv_desc@, to@)
                &&& pm_at(stat.src_inv_desc@, to@) > stat.src_inv
                &&& final(self).terms().term_of(src@) == Some(
                    MlbtTerm::Estb(JoinSubTerm::Idle, BalanceSubTerm::Retract),
                )
                &&& (final(self).waits().slot_of(src@, WaitStateType::RetractWait) matches Some(ws)
                    && ws.inner@.kind == WaitStateType::RetractWait && ws.inner@.src == src@
                    && ws.inner@.peer == to@)
                &&& (forall|r2: Seq<u8>|
                    r2 != src@ ==> final(self).terms().term_of(r2) == old(self).terms().term_of(
                        r2,
                    ))
                &&& (forall|p2: Seq<u8>, t2: WaitStateType|
                    p2 != src@ || t2 != WaitStateType::RetractWait ==> final(self).waits().slot_of(
                        p2,
                        t2,
                    ) == old(self).waits().slot_of(p2, t2))
            },
    {
        let ghost children = relay_children(route_ctl.relay_spec(), src@);
        let oi = match self.mlbt_stat.src_inv(src) {
            Some(v) => v,
            None => {
                proof {
                    assert forall|a: int, b: int|
                        !retract_eligible(self.stats(), src@, children, a, b) by {}
                }
                return None;
            },
        };
        let desc_list = route_ctl.get_relay(src);
        proof {
            if pm_has(route_ctl.relay_spec(), src@) {
                assert(crate::identity::ids_of(desc_list@) =~= children);
            } else {
                assert(children.len() == 0);
            }
        }
        let n = desc_list.len();
        let mut dim: Option<u64> = None;
        let mut i: usize = 0;
        while i < n
            invariant
                self.wf(),
                *self == *old(self),
                n == desc_list@.len(),
                i <= n,
                match dim {
                    Some(v) => (exists|mi: int|
                        0 <= mi < n && pm_has(
                            self.stats().neighbours_spec(),
                            desc_list@[mi]@,
                        ) && pm_at(self.stats().neighbours_spec(), desc_list@[mi]@).delay_ts == v)
                        && (forall|j: int|
                        0 <= j < i && pm_has(
                            self.stats().neighbours_spec(),
                            #[trigger] desc_list@[j]@,
                        ) ==> v <= pm_at(self.stats().neighbours_spec(), desc_list@[j]@).delay_ts),
                    None => forall|j: int|
                        0 <= j < i ==> !pm_has(
                            self.stats().neighbours_spec(),
                            #[trigger] desc_list@[j]@,
                        ),
                },
            decreases n - i,
        {
            match self.mlbt_stat.delay_ts(&desc_list[i]) {
                Some(v) => {
                    let smaller = match dim {
                        Some(cur) => v < cur,
                        None => true,
                    };
                    if smaller {
                        dim = Some(v);
                    }
                },
                None => {},
            }
            i += 1;
        }
        let dim = match dim {
            Some(v) => v,
            None => {
                proof {
                    assert forall|a: int, b: int|
                        !retract_eligible(self.stats(), src@, children, a, b) by {
                        if 0 <= a < children.len() {
                            assert(children[a] == desc_list@[a]@);
                        }
                    }
                }
                return None;
            },
        };
        let mut b: usize = 0;
        while b < n
            invariant
                self.wf(),
                *self == *old(self),
                n == desc_list@.len(),
                b <= n,
                oi == pm_at(self.stats().trees_spec(), src@).src_inv,
                pm_has(self.stats().trees_spec(), src@),
                forall|y: int|
                    0 <= y < b ==> !(pm_has(
                        pm_at(self.stats().trees_spec(), src@).src_inv_desc@,
                        #[trigger] desc_list@[y]@,
                    ) && (pm_at(
                        pm_at(self.stats().trees_spec(), src@).src_inv_desc@,
                        desc_list@[y]@,
                    ) as int) - (oi as int) > (dim as int)),
            decreases n - b,
        {
            match self.mlbt_stat.src_inv_desc(src, &desc_list[b]) {
                Some(oj) => {
                    if oj > oi && oj - oi > dim {
                        let msg_seq = self.seq();
                        self.state.set(
                            src,
                            MlbtTerm::Estb(JoinSubTerm::Idle, BalanceSubTerm::Retract),
                        );
                        self.wait_list.set(
                            src,
                            WaitStateData::RetractWait(
                                (src.clone(), desc_list[b].clone(), msg_seq),
                            ),
                        );
                        let retract = crate::mlbt_message::RelayMsgRetract::new(
                            src.clone(),
                            oi,
                        );
                        let payload = match retract.into_bytes() {
                            Ok(p) => p,
                            Err(_) => {
                                proof {
                                    assert(false);
                                }
                                return None;
                            },
                        };
                        proof {
                            assert(children[b as int] == desc_list@[b as int]@);
                            assert(children.contains(desc_list@[b as int]@));
                        }
                        return Some(
                            (
                                desc_list[b].clone(),
                                RelayCtlMessage::new(RelayMsgKind::RETRACT, msg_seq, payload),
                            ),
                        );
                    }
                },
                None => {},
            }
            b += 1;
        }
        proof {
            assert forall|a: int, b2: int|
                !retract_eligible(self.stats(), src@, children, a, b2) by {
                if retract_eligible(self.stats(), src@, children, a, b2) {
                    assert(children[a] == desc_list@[a]@);
                    assert(children[b2] == desc_list@[b2]@);
                    assert(dim <= pm_at(
                        self.stats().neighbours_spec(),
                        desc_list@[a]@,
                    ).delay_ts);
                }
            }
        }
        None
    }

    /// Answer an incoming GRANT from `sender`: while balance-idle for the
    /// tree and with both measurements known, take the child when our
    /// interval exceeds the offered one by more than the delay to the child
    /// — then tell the child to re-join toward us and arm the grant-recv
    /// slot; otherwise refuse. Unknown terms and missing measurements drop
    /// the proposal.
    pub fn grant_cb(&mut self, route_ctl: &mut RouteTable, sender: &Peer, msg: &RelayCtlMessage) -> (r: Vec<(Peer, RelayCtlMessage)>)
        requires
            old(self).wf(),
            old(route_ctl).wf(),
            old(self).seq_spec() < u64::MAX - 1,
        ensures
            final(self).wf(),
            final(route_ctl).wf(),
            grant_cb_post(
                *old(self),
                *old(route_ctl),
                sender@,
                msg@,
                *final(self),
                *final(route_ctl),
                r@,
            ),
    {
        let mut ret: Vec<(Peer, RelayCtlMessage)> = Vec::new();
        let payload = msg.payload();
        let grant_msg = match crate::mlbt_message::RelayMsgGrant::from_bytes(payload.as_slice()) {
            Ok(m) => m,
            Err(_) => {
                return ret;
            },
        };
        let term = match self.state.get(grant_msg.src_id()) {
            Some(t) => t,
            None => {
                return ret;
            },
        };
        let balance_idle = match term {
            MlbtTerm::Estb(_, BalanceSubTerm::Idle) => true,
            _ => false,
        };
        if !balance_idle {
            ret.push((sender.clone(), msg.reject(self.seq())));
            return ret;
        }
        let oi = match self.mlbt_stat.src_inv(grant_msg.src_id()) {
            Some(v) => v,
            None => {
                return ret;
            },
        };
        let dim = match self.mlbt_stat.delay_ts(grant_msg.target_id()) {
            Some(v) => v,
            None => {
                return ret;
            },
        };
        let oj = grant_msg.src_inv();
        if oi > oj && (oi - oj) > dim {
            ret.push((sender.clone(), msg.accept(self.seq())));
            let info = crate::mlbt_message::RelayMsgGrantInfo::new(grant_msg.src_id().clone());
            let info_payload = match info.into_bytes() {
                Ok(p) => p,
                Err(_) => {
                    return ret;
                },
            };
            let info_seq = self.seq();
            ret.push(
                (
                    grant_msg.target_id().clone(),
                    RelayCtlMessage::new(RelayMsgKind::GRANT_INFO, info_seq, info_payload),
                ),
            );
            self.state.set(
                grant_msg.src_id(),
                MlbtTerm::Estb(JoinSubTerm::Request, BalanceSubTerm::GrantCheck),
            );
            self.wait_list.set(
                grant_msg.src_id(),
                WaitStateData::GrantRecv(
                    (grant_msg.src_id().clone(), grant_msg.target_id().clone()),
                ),
            );
            ret
        } else {
            ret.push((sender.clone(), msg.reject(self.seq())));
            ret
        }
    }

    /// Handle the answer to our earlier GRANT for `src`: the grant-wait slot
    /// is disarmed either way; a refusal returns the tree to balance-idle,
    /// an agreement leaves the grant running until the child's LEAVE lands.
    pub fn grant_wait_cb(&mut self, src: &Peer, accepted: bool)
        requires
            old(self).wf(),
        ensures
            final(self).wf(),
            grant_wait_cb_post(*old(self), src@, accepted, *final(self)),
    {
        self.wait_list.clear(src, WaitStateType::GrantWait);
        if !accepted {
            match self.state.get(src) {
                Some(MlbtTerm::Estb(j, _)) => {
                    self.state.set(src, MlbtTerm::Estb(j, BalanceSubTerm::Idle));
                },
                _ => {},
            }
        }
    }

    /// Handle a GRANT_INFO from our parent: while balance-idle for the tree,
    /// agree to re-join toward the new parent and arm the grant-join slot;
    /// otherwise refuse. An ill-formed payload is dropped.
    pub fn grant_info_cb(&mut self, sender: &Peer, msg: &RelayCtlMessage) -> (r: Option<
        (Peer, RelayCtlMessage),
    >)
        requires
            old(self).wf(),
            old(self).seq_spec() < u64::MAX - 1,
        ensures
            final(self).wf(),
            grant_info_cb_post(*old(self), sender@, msg@, *final(self), r),
    {
        let payload = msg.payload();
        let info_msg = match crate::mlbt_message::RelayMsgGrantInfo::from_bytes(
            payload.as_slice(),
        ) {
            Ok(m) => m,
            Err(_) => {
                return None;
            },
        };
        let balance_idle = match self.state.get(info_msg.src_id()) {
            Some(MlbtTerm::Estb(_, BalanceSubTerm::Idle)) => true,
            _ => false,
        };
        if balance_idle {
            self.state.set(
                info_msg.src_id(),
                MlbtTerm::Estb(JoinSubTerm::Request, BalanceSubTerm::GrantPre),
            );
            let join_seq = self.seq();
            self.wait_list.set(
                info_msg.src_id(),
                WaitStateData::GrantJoin((info_msg.src_id().clone(), sender.clone(), join_seq)),
            );
            Some((sender.clone(), msg.accept(self.seq())))
        } else {
            Some((sender.clone(), msg.reject(self.seq())))
        }
    }

    /// Handle the answer to a grant-side join for `src`: the grant-join slot
    /// is disarmed either way; on agreement the term moves to the pre-join
    /// grant-wait pair and a confirming ACCEPT goes back; on refusal the
    /// tree returns to fully idle.
    pub fn grant_join_cb(&mut self, sender: &Peer, src: &Peer, incoming_id: u64, accepted: bool) -> (r: Option<(Peer, RelayCtlMessage)>)
        requires
            old(self).wf(),
            old(self).seq_spec() < u64::MAX,
        ensures
            final(self).wf(),
            grant_join_cb_post(
                *old(self),
                sender@,
                src@,
                incoming_id,
                accepted,
                *final(self),
                r,
            ),
    {
        self.wait_list.clear(src, WaitStateType::GrantJoin);
        if accepted {
            self.state.set(src, MlbtTerm::Estb(JoinSubTerm::PreJoin, BalanceSubTerm::GrantWait));
            let confirm_seq = self.seq();
            let ack = crate::mlbt_message::RelayMsgAccept::from_id(incoming_id);
            Some((sender.clone(), RelayCtlMessage::new(RelayMsgKind::ACCEPT, confirm_seq, ack.into_bytes())))
        } else {
            self.state.set(src, MlbtTerm::Estb(JoinSubTerm::Idle, BalanceSubTerm::Idle));
            None
        }
    }

    /// Handle the answer to our earlier RETRACT for `src`: the retract-wait
    /// slot is disarmed either way; a refusal returns the tree to
    /// balance-idle.
    pub fn retract_wait_cb(&mut self, src: &Peer, accepted: bool)
        requires
            old(self).wf(),
        ensures
            final(self).wf(),
            retract_wait_cb_post(*old(self), src@, accepted, *final(self)),
    {
        self.wait_list.clear(src, WaitStateType::RetractWait);
        if !accepted {
            match self.state.get(src) {
                Some(MlbtTerm::Estb(j, _)) => {
                    self.state.set(src, MlbtTerm::Estb(j, BalanceSubTerm::Idle));
                },
                _ => {},
            }
        }
    }

    /// Route an inbound ACCEPT or REJECT to the pending handshake it
    /// answers: the wait list is scanned for a slot whose message id matches
    /// the acknowledged one, and that slot's kind selects the callback. With
    /// no match the answer is dropped: the handshake was already abandoned
    /// by a timeout here.
    /// Route an inbound ACCEPT or REJECT to the pending handshake it
    /// answers: the wait list is scanned for a slot whose message id matches
    /// the acknowledged one, and that slot's kind selects the callback,
    /// whose own contract describes the state change and the replies. With
    /// no match the answer is dropped: the handshake was already abandoned
    /// by a timeout here.
    pub fn decision_dispatcher(
        &mut self,
        route_ctl: &mut RouteTable,
        msg: &RelayCtlMessage,
        pos: bool,
    ) -> (r: Vec<(Peer, RelayCtlMessage)>)
        requires
            old(self).wf(),
            old(route_ctl).wf(),
            old(self).seq_spec() < u64::MAX,
        ensures
            final(self).wf(),
            final(route_ctl).wf(),
            final(route_ctl).local_spec() == old(route_ctl).local_spec(),
            decision_post(
                *old(self),
                *old(route_ctl),
                msg@.payload,
                msg@.id,
                pos,
                *final(self),
                *final(route_ctl),
                r@,
            ),
    {
        let mut ret: Vec<(Peer, RelayCtlMessage)> = Vec::new();
        let payload = msg.payload();
        let decision_msg_ack: u64 = if pos {
            match crate::mlbt_message::RelayMsgAccept::from_bytes(payload.as_slice()) {
                Ok(m) => m.ack(),
                Err(_) => {
                    return ret;
                },
            }
        } else {
            match crate::mlbt_message::RelayMsgReject::from_bytes(payload.as_slice()) {
                Ok(m) => m.ack(),
                Err(_) => {
                    return ret;
                },
            }
        };
        let incoming_msg_id = msg.msg_id();
        let matched = self.wait_list.get_by_id(decision_msg_ack);
        proof {
            if matched is Some {
                let (i, t) = choose|i: int, t: WaitStateType|
                    0 <= i < self.waits().entries().len() && ((#[trigger] self.waits().entries()[i].1.slot(
                        t,
                    )) matches Some(ws) && ws.inner@ == (matched->Some_0)@ && wait_id_of(ws.inner@)
                        == Some(decision_msg_ack));
                assert(self.waits().entries()[i].1.has_id(decision_msg_ack));
            }
        }
        match matched {
            Some(WaitStateData::JoinWait((src, waitfor, sid))) => {
                let ghost dv = WaitDataView {
                    kind: WaitStateType::JoinWait,
                    src: src@,
                    peer: waitfor@,
                    id: sid,
                    confirm: 0,
                };
                let reply = self.join_wait_cb(route_ctl, &src, &waitfor, incoming_msg_id, pos);
                let ghost replyg = reply;
                match reply {
                    Some(x) => {
                        ret.push(x);
                    },
                    None => {},
                }
                proof {
                    assert(ret@ =~= opt_reply_seq(replyg));
                    assert(wait_armed_with_id(old(self).waits(), dv, decision_msg_ack));
                    assert(dispatch_case(
                        *old(self),
                        *old(route_ctl),
                        dv,
                        incoming_msg_id,
                        pos,
                        *self,
                        *route_ctl,
                        ret@,
                    ));
                }
            },
            Some(WaitStateData::JoinPre((src, waitfor, sid))) => {
                let ghost dv = WaitDataView {
                    kind: WaitStateType::JoinPre,
                    src: src@,
                    peer: waitfor@,
                    id: sid,
                    confirm: 0,
                };
                self.join_pre_cb(route_ctl, &src, &waitfor, pos);
                proof {
                    assert(wait_armed_with_id(old(self).waits(), dv, decision_msg_ack));
                    assert(dispatch_case(
                        *old(self),
                        *old(route_ctl),
                        dv,
                        incoming_msg_id,
                        pos,
                        *self,
                        *route_ctl,
                        ret@,
                    ));
                }
            },
            Some(WaitStateData::MergeWait((src, waitfor, sid))) => {
                let ghost dv = WaitDataView {
                    kind: WaitStateType::MergeWait,
                    src: src@,
                    peer: waitfor@,
                    id: sid,
                    confirm: 0,
                };
                let reply = self.merge_wait_cb(&src, &waitfor, incoming_msg_id, pos);
                let ghost replyg = reply;
                match reply {
                    Some(x) => {
                        ret.push(x);
                    },
                    None => {},
                }
                proof {
                    assert(ret@ =~= opt_reply_seq(replyg));
                    assert(wait_armed_with_id(old(self).waits(), dv, decision_msg_ack));
                    assert(dispatch_case(
                        *old(self),
                        *old(route_ctl),
                        dv,
                        incoming_msg_id,
                        pos,
                        *self,
                        *route_ctl,
                        ret@,
                    ));
                }
            },
            Some(WaitStateData::MergePre((src, waitfor, sid))) => {
                let ghost dv = WaitDataView {
                    kind: WaitStateType::MergePre,
                    src: src@,
                    peer: waitfor@,
                    id: sid,
                    confirm: 0,
                };
                self.merge_pre_cb(route_ctl, &src, &waitfor, pos);
                proof {
                    assert(wait_armed_with_id(old(self).waits(), dv, decision_msg_ack));
                    assert(dispatch_case(
                        *old(self),
                        *old(route_ctl),
                        dv,
                        incoming_msg_id,
                        pos,
                        *self,
                        *route_ctl,
                        ret@,
                    ));
                }
            },
            Some(WaitStateData::MergeCheck((src, merge_target, confirm_id, sid))) => {
                let ghost dv = WaitDataView {
                    kind: WaitStateType::MergeCheck,
                    src: src@,
                    peer: merge_target@,
                    id: sid,
                    confirm: confirm_id,
                };
                let reply = self.merge_ck_res_cb(&src, &merge_target, confirm_id, pos);
                let ghost replyg = reply;
                match reply {
                    Some(x) => {
                        ret.push(x);
                    },
                    None => {},
                }
                proof {
                    assert(ret@ =~= opt_reply_seq(replyg));
                    assert(wait_armed_with_id(old(self).waits(), dv, decision_msg_ack));
                    assert(dispatch_case(
                        *old(self),
                        *old(route_ctl),
                        dv,
                        incoming_msg_id,
                        pos,
                        *self,
                        *route_ctl,
                        ret@,
                    ));
                }
            },
            Some(WaitStateData::GrantWait((src, waitfor, sid))) => {
                let ghost dv = WaitDataView {
                    kind: WaitStateType::GrantWait,
                    src: src@,
                    peer: waitfor@,
                    id: sid,
                    confirm: 0,
                };
                self.grant_wait_cb(&src, pos);
                proof {
                    assert(wait_armed_with_id(old(self).waits(), dv, decision_msg_ack));
                    assert(dispatch_case(
                        *old(self),
                        *old(route_ctl),
                        dv,
                        incoming_msg_id,
                        pos,
                        *self,
                        *route_ctl,
                        ret@,
                    ));
                }
            },
            Some(WaitStateData::GrantJoin((src, waitfor, sid))) => {
                let ghost dv = WaitDataView {
                    kind: WaitStateType::GrantJoin,
                    src: src@,
                    peer: waitfor@,
                    id: sid,
                    confirm: 0,
                };
                let reply = self.grant_join_cb(&waitfor, &src, incoming_msg_id, pos);
                let ghost replyg = reply;
                match reply {
                    Some(x) => {
                        ret.push(x);
                    },
                    None => {},
                }
                proof {
                    assert(ret@ =~= opt_reply_seq(replyg));
                    assert(wait_armed_with_id(old(self).waits(), dv, decision_msg_ack));
                    assert(dispatch_case(
                        *old(self),
                        *old(route_ctl),
                        dv,
                        incoming_msg_id,
                        pos,
                        *self,
                        *route_ctl,
                        ret@,
                    ));
                }
            },
            Some(WaitStateData::RetractWait((src, waitfor, sid))) => {
                let ghost dv = WaitDataView {
                    kind: WaitStateType::RetractWait,
                    src: src@,
                    peer: waitfor@,
                    id: sid,
                    confirm: 0,
                };
                self.retract_wait_cb(&src, pos);
                proof {
                    assert(wait_armed_with_id(old(self).waits(), dv, decision_msg_ack));
                    assert(dispatch_case(
                        *old(self),
                        *old(route_ctl),
                        dv,
                        incoming_msg_id,
                        pos,
                        *self,
                        *route_ctl,
                        ret@,
                    ));
                }
            },
            Some(WaitStateData::RetractJoin((src, waitfor, sid))) => {
                let ghost dv = WaitDataView {
                    kind: WaitStateType::RetractJoin,
                    src: src@,
                    peer: waitfor@,
                    id: sid,
                    confirm: 0,
                };
                self.wait_list.clear(&src, WaitStateType::RetractJoin);
                proof {
                    assert(wait_armed_with_id(old(self).waits(), dv, decision_msg_ack));
                    assert(dispatch_case(
                        *old(self),
                        *old(route_ctl),
                        dv,
                        incoming_msg_id,
                        pos,
                        *self,
                        *route_ctl,
                        ret@,
                    ));
                }
            },
            Some(WaitStateData::RetractRecv((src, waitfor, sid))) => {
                let ghost dv = WaitDataView {
                    kind: WaitStateType::RetractRecv,
                    src: src@,
                    peer: waitfor@,
                    id: sid,
                    confirm: 0,
                };
                self.wait_list.clear(&src, WaitStateType::RetractRecv);
                proof {
                    assert(wait_armed_with_id(old(self).waits(), dv, decision_msg_ack));
                    assert(dispatch_case(
                        *old(self),
                        *old(route_ctl),
                        dv,
                        incoming_msg_id,
                        pos,
                        *self,
                        *route_ctl,
                        ret@,
                    ));
                }
            },
            Some(WaitStateData::GrantRecv(_)) => {
                // A grant-recv slot answers to no message id, so it cannot
                // have matched.
                proof {
                    assert(false);
                }
            },
            Some(WaitStateData::GrantTotal(_)) => {
                proof {
                    assert(false);
                }
            },
            Some(WaitStateData::RetractTotal(_)) => {
                proof {
                    assert(false);
                }
            },
            None => {},
        }
        ret
    }

    /// Walk every waiting source's timed slots and fire every one past its
    /// deadline, recovering the term the datum belonged to: a stale merge
    /// handshake returns its source to merge-idle, a stale balancing slot
    /// returns its source to balance-idle, and stale join slots simply
    /// disarm, so the next heartbeat may try again. Afterwards the waits
    /// hold exactly the slots that had not expired at `now`, each untouched.
    pub fn check_timers(&mut self, now: u64)
        requires
            old(self).wf(),
        ensures
            final(self).wf(),
            sweep_post(*old(self), *final(self), now),
    {
        let srcs = self.wait_list.keys();
        let ghost roots = crate::identity::ids_of(srcs@);
        let ghost pre = *self;
        proof {
            assert forall|p: Seq<u8>, t: WaitStateType|
                !roots.contains(p) implies self.waits().slot_of(p, t) is None by {
                if pm_has(self.waits().entries(), p) {
                    let k = crate::peer_map::pm_idx(self.waits().entries(), p);
                    assert(roots[k] == p);
                }
            }
            assert forall|a: int, b: int|
                0 <= a < roots.len() && 0 <= b < roots.len() && a != b implies roots[a]
                != roots[b] by {
                assert(roots[a] == self.waits().entries()[a].0);
                assert(roots[b] == self.waits().entries()[b].0);
            }
        }
        let n = srcs.len();
        let mut i: usize = 0;
        while i < n
            invariant
                self.wf(),
                self.stats() == pre.stats(),
                self.seq_spec() == pre.seq_spec(),
                self.grant_prev_spec() == pre.grant_prev_spec(),
                sweep_terms(pre.terms(), self.terms()),
                n == srcs@.len(),
                roots == crate::identity::ids_of(srcs@),
                forall|a: int, b: int|
                    0 <= a < roots.len() && 0 <= b < roots.len() && a != b ==> roots[a]
                        != roots[b],
                forall|p: Seq<u8>, t: WaitStateType|
                    !roots.contains(p) ==> pre.waits().slot_of(p, t) is None,
                i <= n,
                forall|p: Seq<u8>, t: WaitStateType|
                    #![trigger self.waits().slot_of(p, t)]
                    self.waits().slot_of(p, t) == (if roots.take(i as int).contains(p)
                        && slot_stale(pre.waits(), p, t, now) {
                        Option::<WaitState>::None
                    } else {
                        pre.waits().slot_of(p, t)
                    }),
            decreases n - i,
        {
            let ghost mid = *self;
            self.sweep_source(&srcs[i], now);
            proof {
                lemma_sweep_terms_trans(pre.terms(), mid.terms(), self.terms());
                let rid = srcs@[i as int]@;
                assert(roots.take(i + 1).drop_last() =~= roots.take(i as int));
                assert forall|p: Seq<u8>, t: WaitStateType|
                    #![trigger self.waits().slot_of(p, t)]
                    self.waits().slot_of(p, t) == (if roots.take(i + 1).contains(p) && slot_stale(
                        pre.waits(),
                        p,
                        t,
                        now,
                    ) {
                        Option::<WaitState>::None
                    } else {
                        pre.waits().slot_of(p, t)
                    }) by {
                    if p == rid {
                        assert(roots.take(i + 1)[i as int] == p);
                        assert(roots.take(i + 1).contains(p));
                        assert(!roots.take(i as int).contains(p)) by {
                            if roots.take(i as int).contains(p) {
                                let k = choose|k: int|
                                    0 <= k < i && #[trigger] roots.take(i as int)[k] == p;
                                assert(roots[k] == roots[i as int]);
                            }
                        }
                        assert(mid.waits().slot_of(p, t) == pre.waits().slot_of(p, t));
                    } else {
                        assert(self.waits().slot_of(p, t) == mid.waits().slot_of(p, t));
                        if roots.take(i + 1).contains(p) {
                            let k = choose|k: int|
                                0 <= k < i + 1 && #[trigger] roots.take(i + 1)[k] == p;
                            assert(k < i);
                            assert(roots.take(i as int)[k] == p);
                            assert(roots.take(i as int).contains(p));
                        } else {
                            assert(!roots.take(i as int).contains(p)) by {
                                if roots.take(i as int).contains(p) {
                                    let k = choose|k: int|
                                        0 <= k < i && #[trigger] roots.take(i as int)[k] == p;
                                    assert(roots.take(i + 1)[k] == p);
                                }
                            }
                        }
                    }
                }
            }
            i += 1;
        }
        proof {
            assert(roots.take(n as int) =~= roots);
            assert forall|p: Seq<u8>, t: WaitStateType|
                #![trigger self.waits().slot_of(p, t)]
                self.waits().slot_of(p, t) == (if slot_stale(pre.waits(), p, t, now) {
                    Option::<WaitState>::None
                } else {
                    pre.waits().slot_of(p, t)
                }) by {
                if !roots.contains(p) {
                    assert(pre.waits().slot_of(p, t) is None);
                }
            }
        }
    }

    /// Sweep one source's thirteen slots at `now`: each expired one is
    /// consumed and its term recovery applied; nothing else of the waits
    /// changes.
    fn sweep_source(&mut self, root: &Peer, now: u64)
        requires
            old(self).wf(),
        ensures
            final(self).wf(),
            final(self).stats() == old(self).stats(),
            final(self).seq_spec() == old(self).seq_spec(),
            final(self).grant_prev_spec() == old(self).grant_prev_spec(),
            sweep_terms(old(self).terms(), final(self).terms()),
            forall|p: Seq<u8>, t: WaitStateType|
                #![trigger final(self).waits().slot_of(p, t)]
                final(self).waits().slot_of(p, t) == (if p == root@ && slot_stale(
                    old(self).waits(),
                    root@,
                    t,
                    now,
                ) {
                    Option::<WaitState>::None
                } else {
                    old(self).waits().slot_of(p, t)
                }),
    {
        let kinds: [WaitStateType; 13] = [
            WaitStateType::JoinWait,
            WaitStateType::JoinPre,
            WaitStateType::MergeWait,
            WaitStateType::MergePre,
            WaitStateType::MergeCheck,
            WaitStateType::GrantWait,
            WaitStateType::GrantJoin,
            WaitStateType::GrantRecv,
            WaitStateType::GrantTotal,
            WaitStateType::RetractWait,
            WaitStateType::RetractJoin,
            WaitStateType::RetractRecv,
            WaitStateType::RetractTotal,
        ];
        let ghost pre = *self;
        let mut k: usize = 0;
        while k < 13
            invariant
                self.wf(),
                self.stats() == pre.stats(),
                self.seq_spec() == pre.seq_spec(),
                self.grant_prev_spec() == pre.grant_prev_spec(),
                sweep_terms(pre.terms(), self.terms()),
                k <= 13,
                kinds@.len() == 13,
                kinds@[0] == WaitStateType::JoinWait,
                kinds@[1] == WaitStateType::JoinPre,
                kinds@[2] == WaitStateType::MergeWait,
                kinds@[3] == WaitStateType::MergePre,
                kinds@[4] == WaitStateType::MergeCheck,
                kinds@[5] == WaitStateType::GrantWait,
                kinds@[6] == WaitStateType::GrantJoin,
                kinds@[7] == WaitStateType::GrantRecv,
                kinds@[8] == WaitStateType::GrantTotal,
                kinds@[9] == WaitStateType::RetractWait,
                kinds@[10] == WaitStateType::RetractJoin,
                kinds@[11] == WaitStateType::RetractRecv,
                kinds@[12] == WaitStateType::RetractTotal,
                forall|p: Seq<u8>, t: WaitStateType|
                    #![trigger self.waits().slot_of(p, t)]
                    self.waits().slot_of(p, t) == (if p == root@ && kinds@.take(
                        k as int,
                    ).contains(t) && slot_stale(pre.waits(), root@, t, now) {
                        Option::<WaitState>::None
                    } else {
                        pre.waits().slot_of(p, t)
                    }),
            decreases 13 - k,
        {
            let t = kinds[k];
            let ghost mid = *self;
            let fired = self.wait_list.check_at(root, t, now);
            match fired {
                Some(data) => {
                    self.recover_term(&data);
                },
                None => {},
            }
            proof {
                assert(kinds@.take(k + 1).drop_last() =~= kinds@.take(k as int));
                lemma_sweep_terms_trans(pre.terms(), mid.terms(), self.terms());
                assert forall|p: Seq<u8>, t2: WaitStateType|
                    #![trigger self.waits().slot_of(p, t2)]
                    self.waits().slot_of(p, t2) == (if p == root@ && kinds@.take(k + 1).contains(
                        t2,
                    ) && slot_stale(pre.waits(), root@, t2, now) {
                        Option::<WaitState>::None
                    } else {
                        pre.waits().slot_of(p, t2)
                    }) by {
                    if p == root@ && t2 == t {
                        assert(kinds@.take(k + 1)[k as int] == t2);
                        assert(kinds@.take(k + 1).contains(t2));
                        assert(mid.waits().slot_of(root@, t) == (if kinds@.take(
                            k as int,
                        ).contains(t) && slot_stale(pre.waits(), root@, t, now) {
                            Option::<WaitState>::None
                        } else {
                            pre.waits().slot_of(root@, t)
                        }));
                    } else {
                        assert(self.waits().slot_of(p, t2) == mid.waits().slot_of(p, t2));
                        if kinds@.take(k + 1).contains(t2) && !kinds@.take(k as int).contains(
                            t2,
                        ) {
                            let j = choose|j: int|
                                0 <= j < k + 1 && #[trigger] kinds@.take(k + 1)[j] == t2;
                            assert(j == k);
                        }
                        if kinds@.take(k as int).contains(t2) {
                            let j = choose|j: int|
                                0 <= j < k && #[trigger] kinds@.take(k as int)[j] == t2;
                            assert(kinds@.take(k + 1)[j] == t2);
                        }
                    }
                }
            }
            k += 1;
        }
        proof {
            assert(kinds@.take(13) =~= kinds@);
            assert forall|t: WaitStateType| kinds@.contains(t) by {
                match t {
                    WaitStateType::JoinWait => assert(kinds@[0] == t),
                    WaitStateType::JoinPre => assert(kinds@[1] == t),
                    WaitStateType::MergeWait => assert(kinds@[2] == t),
                    WaitStateType::MergePre => assert(kinds@[3] == t),
                    WaitStateType::MergeCheck => assert(kinds@[4] == t),
                    WaitStateType::GrantWait => assert(kinds@[5] == t),
                    WaitStateType::GrantJoin => assert(kinds@[6] == t),
                    WaitStateType::GrantRecv => assert(kinds@[7] == t),
                    WaitStateType::GrantTotal => assert(kinds@[8] == t),
                    WaitStateType::RetractWait => assert(kinds@[9] == t),
                    WaitStateType::RetractJoin => assert(kinds@[10] == t),
                    WaitStateType::RetractRecv => assert(kinds@[11] == t),
                    WaitStateType::RetractTotal => assert(kinds@[12] == t),
                }
            }
        }
    }

    /// Apply the term recovery a fired slot calls for: a stale merge
    /// handshake returns its source to merge-idle, a stale balancing slot to
    /// balance-idle; join slots need no recovery.
    fn recover_term(&mut self, data: &WaitStateData)
        requires
            old(self).wf(),
        ensures
            final(self).wf(),
            final(self).waits() == old(self).waits(),
            final(self).stats() == old(self).stats(),
            final(self).seq_spec() == old(self).seq_spec(),
            final(self).grant_prev_spec() == old(self).grant_prev_spec(),
            sweep_terms(old(self).terms(), final(self).terms()),
    {
        let ghost pre = self.terms();
        let (src, recover_init, recover_balance): (&Peer, bool, bool) = match data {
            WaitStateData::JoinWait((s, _, _)) => (s, false, false),
            WaitStateData::JoinPre((s, _, _)) => (s, false, false),
            WaitStateData::MergeWait((s, _, _)) => (s, true, false),
            WaitStateData::MergePre((s, _, _)) => (s, true, false),
            WaitStateData::MergeCheck((s, _, _, _)) => (s, true, false),
            WaitStateData::GrantWait((s, _, _)) => (s, false, true),
            WaitStateData::GrantJoin((s, _, _)) => (s, false, true),
            WaitStateData::GrantRecv((s, _)) => (s, false, true),
            WaitStateData::GrantTotal((s, _)) => (s, false, true),
            WaitStateData::RetractWait((s, _, _)) => (s, false, true),
            WaitStateData::RetractJoin((s, _, _)) => (s, false, true),
            WaitStateData::RetractRecv((s, _, _)) => (s, false, true),
            WaitStateData::RetractTotal((s, _)) => (s, false, true),
        };
        if recover_init {
            match self.state.get(src) {
                Some(MlbtTerm::Init(_)) => {
                    self.state.set(src, MlbtTerm::Init(MergeSubTerm::Idle));
                },
                _ => {},
            }
        } else if recover_balance {
            match self.state.get(src) {
                Some(MlbtTerm::Estb(j, _)) => {
                    self.state.set(src, MlbtTerm::Estb(j, BalanceSubTerm::Idle));
                },
                _ => {},
            }
        }
        proof {
            assert forall|r2: Seq<u8>|
                #![trigger self.terms().term_of(r2)]
                self.terms().term_of(r2) == pre.term_of(r2) || (self.terms().term_of(r2) == Some(
                    MlbtTerm::Init(MergeSubTerm::Idle),
                ) && (pre.term_of(r2) matches Some(MlbtTerm::Init(_)))) || (pre.term_of(r2)
                matches Some(MlbtTerm::Estb(j, _)) && self.terms().term_of(r2) == Some(
                MlbtTerm::Estb(j, BalanceSubTerm::Idle),
            )) by {}
        }
    }

    /// Make sure every source the route table lists has a term: a known
    /// source keeps its term, a newcomer starts idle, and no other source's
    /// term moves; the bootstrap itself emits nothing. A newcomer starts in
    /// the idle term — not initializing — so that the next heartbeat seeks a
    /// join for it; a node that should rather merge as a fresh root moves
    /// itself toward merging with `set_term` and `merge`.
    pub fn bootstrap(&mut self, route_ctl: &mut RouteTable) -> (r: Vec<(Peer, Vec<u8>)>)
        requires
            old(self).wf(),
            old(route_ctl).wf(),
        ensures
            final(self).wf(),
            final(route_ctl).wf(),
            *final(route_ctl) == *old(route_ctl),
            final(self).stats() == old(self).stats(),
            final(self).waits() == old(self).waits(),
            final(self).seq_spec() == old(self).seq_spec(),
            final(self).grant_prev_spec() == old(self).grant_prev_spec(),
            r@.len() == 0,
            forall|i: int|
                0 <= i < old(route_ctl).del_spec().len() ==> final(self).terms().term_of(
                    (#[trigger] old(route_ctl).del_spec()[i]).0,
                ) is Some,
            forall|r2: Seq<u8>|
                old(self).terms().term_of(r2) is Some ==> final(self).terms().term_of(r2) == old(self).terms().term_of(r2),
            forall|r2: Seq<u8>|
                old(self).terms().term_of(r2) is None && final(self).terms().term_of(r2) is Some
                    ==> final(self).terms().term_of(r2) == Some(MlbtTerm::Idle),
    {
        let srcs = route_ctl.get_src_list();
        let n = srcs.len();
        let mut i: usize = 0;
        while i < n
            invariant
                self.wf(),
                route_ctl.wf(),
                self.stats() == old(self).stats(),
                self.waits() == old(self).waits(),
                self.seq_spec() == old(self).seq_spec(),
                self.grant_prev_spec() == old(self).grant_prev_spec(),
                n == srcs@.len(),
                forall|j: int| 0 <= j < n ==> srcs@[j]@ == old(route_ctl).del_spec()[j].0,
                i <= n,
                forall|j: int| 0 <= j < i ==> self.terms().term_of(#[trigger] srcs@[j]@) is Some,
                forall|r2: Seq<u8>|
                    old(self).terms().term_of(r2) is Some ==> self.terms().term_of(r2) == old(self).terms().term_of(r2),
                forall|r2: Seq<u8>|
                    old(self).terms().term_of(r2) is None && self.terms().term_of(r2) is Some
                        ==> self.terms().term_of(r2) == Some(MlbtTerm::Idle),
            decreases n - i,
        {
            match self.state.get(&srcs[i]) {
                Some(_) => {},
                None => {
                    self.state.set(&srcs[i], MlbtTerm::Idle);
                },
            }
            i += 1;
        }
        Vec::new()
    }

    /// Word from the engine that a relay round finished; the measurement
    /// hooks that would digest it are fed by the probe instead, so nothing
    /// changes here.
    pub fn relay_receipt(&mut self, route_ctl: &mut RouteTable, all_success: bool)
        requires
            old(self).wf(),
            old(route_ctl).wf(),
        ensures
            *final(self) == *old(self),
            *final(route_ctl) == *old(route_ctl),
    {
    }

    /// Take one inbound relay-control message: fire due timers, then let the
    /// message's kind pick the handler; the replies come back encoded, ready
    /// to send. An undecodable message is dropped whole.
    /// Take one inbound relay-control message: fire due timers, then let the
    /// message's kind pick the handler; the replies come back encoded, ready
    /// to send. An undecodable message is dropped whole. The retract answer
    /// path is not taken up: its wire form names no peer to re-join toward,
    /// so those kinds are dropped and the asking side times out.
    pub fn relay_ctl_callback(
        &mut self,
        route_ctl: &mut RouteTable,
        sender: &Peer,
        msg: &[u8],
    ) -> (r: Vec<(Peer, Vec<u8>)>)
        requires
            old(self).wf(),
            old(route_ctl).wf(),
            old(self).seq_spec() < u64::MAX - 2,
        ensures
            final(self).wf(),
            final(route_ctl).wf(),
            callback_post(
                *old(self),
                *old(route_ctl),
                sender@,
                msg@,
                *final(self),
                *final(route_ctl),
                r@,
            ),
    {
        let parsed = match RelayCtlMessage::from_bytes(msg) {
            Ok(m) => m,
            Err(_) => {
                let ret: Vec<(Peer, Vec<u8>)> = Vec::new();
                return ret;
            },
        };
        let ghost m = parsed@;
        let now = now_millis();
        self.check_timers(now);
        let ghost mid = *self;
        let ret: Vec<(Peer, Vec<u8>)> = match parsed.msg_type() {
            RelayMsgKind::ACCEPT => {
                let replies = self.decision_dispatcher(route_ctl, &parsed, true);
                let ghost rep = replies@;
                let out = encode_replies(replies);
                proof {
                    assert(ctl_replies_encoded(out@, rep));
                }
                out
            },
            RelayMsgKind::REJECT => {
                let replies = self.decision_dispatcher(route_ctl, &parsed, false);
                let ghost rep = replies@;
                let out = encode_replies(replies);
                proof {
                    assert(ctl_replies_encoded(out@, rep));
                }
                out
            },
            RelayMsgKind::JOIN => {
                let reply = self.join_cb(route_ctl, sender, &parsed);
                let ghost ro = reply;
                let out = encode_opt(reply);
                proof {
                    assert(ctl_replies_encoded(out@, opt_reply_seq(ro)));
                }
                out
            },
            RelayMsgKind::LEAVE => {
                self.leave_cb(route_ctl, sender, &parsed);
                Vec::new()
            },
            RelayMsgKind::MERGE => {
                let reply = self.merge_cb(route_ctl, sender, &parsed);
                let ghost ro = reply;
                let out = encode_opt(reply);
                proof {
                    assert(ctl_replies_encoded(out@, opt_reply_seq(ro)));
                }
                out
            },
            RelayMsgKind::MERGE_CHECK => {
                let reply = self.merge_ck_cb(route_ctl, sender, &parsed);
                let ghost ro = reply;
                let out = encode_opt(reply);
                proof {
                    assert(ctl_replies_encoded(out@, opt_reply_seq(ro)));
                }
                out
            },
            RelayMsgKind::GRANT => {
                let replies = self.grant_cb(route_ctl, sender, &parsed);
                let ghost rep = replies@;
                let out = encode_replies(replies);
                proof {
                    assert(ctl_replies_encoded(out@, rep));
                }
                out
            },
            RelayMsgKind::GRANT_INFO => {
                let reply = self.grant_info_cb(sender, &parsed);
                let ghost ro = reply;
                let out = encode_opt(reply);
                proof {
                    assert(ctl_replies_encoded(out@, opt_reply_seq(ro)));
                }
                out
            },
            RelayMsgKind::RETRACT => Vec::new(),
            RelayMsgKind::RETRACT_INFO => Vec::new(),
            RelayMsgKind::RETRACT_REPLY => Vec::new(),
        };
        proof {
            assert(sweep_post(*old(self), mid, now));
        }
        ret
    }

    /// Run one heartbeat: fire due timers, then for every listed source try
    /// the move its term calls for — an idle source asks to join its tree, a
    /// merge-idle one with known statistics proposes a merge toward its
    /// tree's root, and an established and fully idle one probes a
    /// rebalance, alternating grant and retract. The messages come back
    /// encoded, ready to send.
    pub fn heartbeat(&mut self, route_ctl: &mut RouteTable) -> (r: Vec<(Peer, Vec<u8>)>)
        requires
            old(self).wf(),
            old(route_ctl).wf(),
            old(self).seq_spec() + 2 * old(route_ctl).del_spec().len() + 2 < u64::MAX,
        ensures
            final(self).wf(),
            final(route_ctl).wf(),
            *final(route_ctl) == *old(route_ctl),
            exists|mid: MlbtRelayCtlContext, now: u64|
                #![trigger sweep_post(*old(self), mid, now)]
                mid.wf() && sweep_post(*old(self), mid, now) && heartbeat_post(
                    mid,
                    *old(route_ctl),
                    *final(self),
                    r@,
                ),
    {
        let mut ret: Vec<(Peer, Vec<u8>)> = Vec::new();
        let now = now_millis();
        self.check_timers(now);
        let ghost mid = *self;
        let srcs = route_ctl.get_src_list();
        proof {
            assert forall|a: int, b: int|
                0 <= a < srcs@.len() && 0 <= b < srcs@.len() && a != b implies srcs@[a]@
                != srcs@[b]@ by {
                assert(srcs@[a]@ == route_ctl.del_spec()[a].0);
                assert(srcs@[b]@ == route_ctl.del_spec()[b].0);
            }
        }
        let n = srcs.len();
        let mut i: usize = 0;
        while i < n
            invariant
                self.wf(),
                route_ctl.wf(),
                *route_ctl == *old(route_ctl),
                n == srcs@.len(),
                n == old(route_ctl).del_spec().len(),
                forall|j: int| 0 <= j < n ==> srcs@[j]@ == old(route_ctl).del_spec()[j].0,
                forall|a: int, b: int|
                    0 <= a < n && 0 <= b < n && a != b ==> srcs@[a]@ != srcs@[b]@,
                i <= n,
                self.seq_spec() + 2 * (n - i) + 1 < u64::MAX,
                self.stats() == mid.stats(),
                forall|j: int|
                    i <= j < n ==> self.terms().term_of(#[trigger] srcs@[j]@)
                        == mid.terms().term_of(srcs@[j]@),
                forall|j: int|
                    0 <= j < i ==> heartbeat_source_post(
                        mid,
                        *old(route_ctl),
                        *self,
                        ret@,
                        #[trigger] srcs@[j]@,
                    ),
            decreases n - i,
        {
            let root = &srcs[i];
            let ghost ret0 = ret@;
            let ghost self0 = *self;
            match self.state.get(root) {
                Some(MlbtTerm::Idle) => {
                    match self.join(root, root) {
                        Some((to, m)) => {
                            let ghost mv = m@;
                            match m.into_bytes() {
                                Ok(bytes) => {
                                    let ghost before = ret@;
                                    ret.push((to, bytes));
                                    proof {
                                        let k = before.len() as int;
                                        assert(ret@[k].0@ == srcs@[i as int]@);
                                        assert(mv == (RelayCtlMessageView {
                                            kind: RelayMsgKind::JOIN,
                                            id: mv.id,
                                            payload: srcs@[i as int]@,
                                        }));
                                        assert(ret@[k].1@ == crate::mlbt_message::spec_ctl_body(
                                            RelayCtlMessageView {
                                                kind: RelayMsgKind::JOIN,
                                                id: mv.id,
                                                payload: srcs@[i as int]@,
                                            },
                                        ));
                                    }
                                },
                                Err(_) => {
                                    proof {
                                        assert(false);
                                    }
                                },
                            }
                        },
                        None => {
                            proof {
                                assert(false);
                            }
                        },
                    }
                },
                Some(MlbtTerm::Init(MergeSubTerm::Idle)) => {
                    match self.merge(root, root) {
                        Some((to, m)) => {
                            let ghost mv = m@;
                            match m.into_bytes() {
                                Ok(bytes) => {
                                    let ghost before = ret@;
                                    ret.push((to, bytes));
                                    proof {
                                        let k = before.len() as int;
                                        let stat = pm_at(
                                            mid.stats().trees_spec(),
                                            srcs@[i as int]@,
                                        );
                                        assert(ret@[k].0@ == srcs@[i as int]@);
                                        assert(mv == (RelayCtlMessageView {
                                            kind: RelayMsgKind::MERGE,
                                            id: mv.id,
                                            payload: crate::mlbt_message::spec_merge_body(
                                                stat.relay_inv,
                                                stat.merge_thrd,
                                                srcs@[i as int]@,
                                            ),
                                        }));
                                        assert(ret@[k].1@ == crate::mlbt_message::spec_ctl_body(
                                            RelayCtlMessageView {
                                                kind: RelayMsgKind::MERGE,
                                                id: mv.id,
                                                payload: crate::mlbt_message::spec_merge_body(
                                                    stat.relay_inv,
                                                    stat.merge_thrd,
                                                    srcs@[i as int]@,
                                                ),
                                            },
                                        ));
                                    }
                                },
                                Err(_) => {
                                    proof {
                                        assert(false);
                                    }
                                },
                            }
                        },
                        None => {},
                    }
                },
                Some(MlbtTerm::Estb(JoinSubTerm::Idle, BalanceSubTerm::Idle)) => {
                    match self.try_balance(root, route_ctl) {
                        Some((to, m)) => {
                            match m.into_bytes() {
                                Ok(bytes) => {
                                    ret.push((to, bytes));
                                },
                                Err(_) => {},
                            }
                        },
                        None => {},
                    }
                },
                _ => {},
            }
            proof {
                assert forall|j: int| 0 <= j < i + 1 implies heartbeat_source_post(
                    mid,
                    *old(route_ctl),
                    *self,
                    ret@,
                    #[trigger] srcs@[j]@,
                ) by {
                    let s = srcs@[j]@;
                    if j < i {
                        assert(s != srcs@[i as int]@);
                        assert(heartbeat_source_post(mid, *old(route_ctl), self0, ret0, s));
                        assert(self.waits().slot_of(s, WaitStateType::JoinWait)
                            == self0.waits().slot_of(s, WaitStateType::JoinWait));
                        assert(self.waits().slot_of(s, WaitStateType::MergeWait)
                            == self0.waits().slot_of(s, WaitStateType::MergeWait));
                        assert(self.terms().term_of(s) == self0.terms().term_of(s));
                        if mid.terms().term_of(s) == Some(MlbtTerm::Idle) {
                            let k = choose|k: int|
                                0 <= k < ret0.len() && (#[trigger] ret0[k]).0@ == s && (exists|
                                    id: u64,
                                |
                                    ret0[k].1@ == #[trigger] crate::mlbt_message::spec_ctl_body(
                                        RelayCtlMessageView {
                                            kind: RelayMsgKind::JOIN,
                                            id: id,
                                            payload: s,
                                        },
                                    ));
                            assert(ret@[k] == ret0[k]);
                            assert((ret@[k]).0@ == s);
                        }
                        if mid.terms().term_of(s) == Some(MlbtTerm::Init(MergeSubTerm::Idle))
                            && pm_has(mid.stats().trees_spec(), s) {
                            let stat = pm_at(mid.stats().trees_spec(), s);
                            let k = choose|k: int|
                                0 <= k < ret0.len() && (#[trigger] ret0[k]).0@ == s && (exists|
                                    id: u64,
                                |
                                    ret0[k].1@ == #[trigger] crate::mlbt_message::spec_ctl_body(
                                        RelayCtlMessageView {
                                            kind: RelayMsgKind::MERGE,
                                            id: id,
                                            payload: crate::mlbt_message::spec_merge_body(
                                                stat.relay_inv,
                                                stat.merge_thrd,
                                                s,
                                            ),
                                        },
                                    ));
                            assert(ret@[k] == ret0[k]);
                            assert((ret@[k]).0@ == s);
                        }
                    }
                }
            }
            i += 1;
        }
        proof {
            assert(sweep_post(*old(self), mid, now));
            assert forall|k: int|
                0 <= k < old(route_ctl).del_spec().len() implies heartbeat_source_post(
                mid,
                *old(route_ctl),
                *self,
                ret@,
                (#[trigger] old(route_ctl).del_spec()[k]).0,
            ) by {
                assert(srcs@[k]@ == old(route_ctl).del_spec()[k].0);
            }
        }
        ret
    }

}

/// Encode a batch of control replies for the wire, one frame per reply, in
/// order.
fn encode_replies(replies: Vec<(Peer, RelayCtlMessage)>) -> (r: Vec<(Peer, Vec<u8>)>)
    ensures
        ctl_replies_encoded(r@, replies@),
{
    let mut out: Vec<(Peer, Vec<u8>)> = Vec::new();
    let n = replies.len();
    let mut i: usize = 0;
    while i < n
        invariant
            n == replies@.len(),
            i <= n,
            out@.len() == i,
            forall|j: int|
                0 <= j < i ==> (#[trigger] out@[j]).0@ == replies@[j].0@ && out@[j].1@
                    == crate::mlbt_message::spec_ctl_body(replies@[j].1@),
        decreases n - i,
    {
        match replies[i].1.into_bytes() {
            Ok(bytes) => {
                let p = replies[i].0.clone();
                out.push((p, bytes));
            },
            Err(_) => {
                proof {
                    assert(false);
                }
            },
        }
        i += 1;
    }
    out
}

/// Encode an optional control reply for the wire: one frame when there is
/// one, none otherwise.
fn encode_opt(reply: Option<(Peer, RelayCtlMessage)>) -> (r: Vec<(Peer, Vec<u8>)>)
    ensures
        ctl_replies_encoded(r@, opt_reply_seq(reply)),
{
    let mut out: Vec<(Peer, Vec<u8>)> = Vec::new();
    match reply {
        Some((to, m)) => {
            match m.into_bytes() {
                Ok(bytes) => {
                    out.push((to, bytes));
                },
                Err(_) => {
                    proof {
                        assert(false);
                    }
                },
            }
        },
        None => {},
    }
    out
}

/// Of two distinct ids of equal length, exactly one orders strictly after
/// the other: with `join_cb`'s contract this is the merge tie-break — of two
/// established peers that joined each other for one source, exactly the
/// larger-id one answers with an ACCEPT and adopts the other, and the
/// smaller-id one answers with a REJECT.
pub proof fn lemma_id_gt_total(a: Seq<u8>, b: Seq<u8>)
    requires
        a.len() == b.len(),
    ensures
        a == b || (Peer::id_gt(a, b) <==> !Peer::id_gt(b, a)),
    decreases a.len(),
{
    if a.len() > 0 {
        if a[0] == b[0] {
            lemma_id_gt_total(a.skip(1), b.skip(1));
            if a.skip(1) == b.skip(1) {
                assert forall|i: int| 0 <= i < a.len() implies a[i] == b[i] by {
                    if i > 0 {
                        assert(a[i] == a.skip(1)[i - 1]);
                        assert(b[i] == b.skip(1)[i - 1]);
                    }
                }
                assert(a =~= b);
            }
        }
    } else {
        assert(a =~= b);
    }
}


/// What `join_wait_cb` leaves behind; the accept/reject dispatcher's
/// contract speaks through this.
pub open spec fn join_wait_cb_post(
    pre: MlbtRelayCtlContext,
    pre_rt: RouteTable,
    src: Seq<u8>,
    waitfor: Seq<u8>,
    incoming_id: u64,
    accepted: bool,
    post: MlbtRelayCtlContext,
    post_rt: RouteTable,
    r: Option<(Peer, RelayCtlMessage)>,
) -> bool {
    &&& (post.terms() == pre.terms())
    &&& (post.stats() == pre.stats())
    &&& (post.waits().slot_of(src, WaitStateType::JoinWait) is None)
    &&& (forall|p2: Seq<u8>, t2: WaitStateType|
                p2 != src || t2 != WaitStateType::JoinWait ==> post.waits().slot_of(
                    p2,
                    t2,
                ) == pre.waits().slot_of(p2, t2))
    &&& (post_rt.local_spec() == pre_rt.local_spec())
    &&& (post_rt.relay_spec() == pre_rt.relay_spec())
    &&& (post_rt.path_spec() == pre_rt.path_spec())
    &&& (!accepted ==> r is None && post_rt.del_spec() == pre_rt.del_spec())
    &&& (accepted ==> {
                &&& (pm_has(pre_rt.del_spec(), src) ==> post_rt.del_spec()
                    == pre_rt.del_spec())
                &&& (!pm_has(pre_rt.del_spec(), src) ==> pm_has(
                    post_rt.del_spec(),
                    src,
                ) && pm_at(post_rt.del_spec(), src)@ == waitfor)
                &&& (r matches Some((to, m)) && to@ == waitfor && m@.kind == RelayMsgKind::ACCEPT
                    && m@.payload == spec_u64_be(incoming_id))
            })
}


/// What `join_pre_cb` leaves behind; the accept/reject dispatcher's
/// contract speaks through this.
pub open spec fn join_pre_cb_post(
    pre: MlbtRelayCtlContext,
    pre_rt: RouteTable,
    src: Seq<u8>,
    waitfor: Seq<u8>,
    accepted: bool,
    post: MlbtRelayCtlContext,
    post_rt: RouteTable,
) -> bool {
    &&& (post.terms() == pre.terms())
    &&& (post.stats() == pre.stats())
    &&& (post.waits().slot_of(src, WaitStateType::JoinPre) is None)
    &&& (forall|p2: Seq<u8>, t2: WaitStateType|
                p2 != src || t2 != WaitStateType::JoinPre ==> post.waits().slot_of(
                    p2,
                    t2,
                ) == pre.waits().slot_of(p2, t2))
    &&& (post_rt.local_spec() == pre_rt.local_spec())
    &&& (post_rt.del_spec() == pre_rt.del_spec())
    &&& (post_rt.path_spec() == pre_rt.path_spec())
    &&& (!accepted ==> post_rt.relay_spec() == pre_rt.relay_spec())
    &&& (accepted && relay_sum(pre_rt.relay_spec()) >= MAX_LINK ==> post_rt.relay_spec() == pre_rt.relay_spec())
    &&& (accepted && relay_sum(pre_rt.relay_spec()) < MAX_LINK
                && !crate::route::relay_has_child(pre_rt.relay_spec(), src, waitfor)
                ==> crate::route::relay_has_child(post_rt.relay_spec(), src, waitfor))
}


/// What `merge_wait_cb` leaves behind; the accept/reject dispatcher's
/// contract speaks through this.
pub open spec fn merge_wait_cb_post(
    pre: MlbtRelayCtlContext,
    src: Seq<u8>,
    waitfor: Seq<u8>,
    incoming_id: u64,
    accepted: bool,
    post: MlbtRelayCtlContext,
    r: Option<(Peer, RelayCtlMessage)>,
) -> bool {
    &&& (post.stats() == pre.stats())
    &&& (post.waits().slot_of(src, WaitStateType::MergeWait) is None)
    &&& (accepted ==> {
                &&& (r matches Some((to, m)) && to@ == waitfor && m@.kind == RelayMsgKind::ACCEPT
                    && m@.id == pre.seq_spec() + 1 && m@.payload == spec_u64_be(incoming_id))
                &&& (post.waits().slot_of(src, WaitStateType::MergePre) matches Some(ws)
                    && ws.inner@.kind == WaitStateType::MergePre && ws.inner@.src == src
                    && ws.inner@.peer == waitfor && ws.inner@.id == pre.seq_spec() + 1)
                &&& post.terms() == pre.terms()
            })
    &&& (!accepted ==> r is None && post.terms().term_of(src) == Some(
                MlbtTerm::Init(MergeSubTerm::Idle),
            ) && (forall|r2: Seq<u8>|
                r2 != src ==> post.terms().term_of(r2) == pre.terms().term_of(r2)))
}


/// What `merge_pre_cb` leaves behind; the accept/reject dispatcher's
/// contract speaks through this.
pub open spec fn merge_pre_cb_post(
    pre: MlbtRelayCtlContext,
    pre_rt: RouteTable,
    src: Seq<u8>,
    waitfor: Seq<u8>,
    accepted: bool,
    post: MlbtRelayCtlContext,
    post_rt: RouteTable,
) -> bool {
    &&& (post.stats() == pre.stats())
    &&& (post.waits().slot_of(src, WaitStateType::MergePre) is None)
    &&& (forall|p2: Seq<u8>, t2: WaitStateType|
                p2 != src || t2 != WaitStateType::MergePre ==> post.waits().slot_of(
                    p2,
                    t2,
                ) == pre.waits().slot_of(p2, t2))
    &&& (post_rt.local_spec() == pre_rt.local_spec())
    &&& (post_rt.path_spec() == pre_rt.path_spec())
    &&& (!accepted ==> post_rt == pre_rt && post.terms().term_of(src)
                == Some(MlbtTerm::Init(MergeSubTerm::Idle)))
    &&& (accepted && Peer::id_gt(pre_rt.local_spec(), waitfor) ==> {
                &&& post_rt.del_spec() == pre_rt.del_spec()
                &&& post.terms().term_of(src) == Some(
                    MlbtTerm::Estb(JoinSubTerm::Idle, BalanceSubTerm::Idle),
                )
                &&& (relay_sum(pre_rt.relay_spec()) < MAX_LINK
                    && !crate::route::relay_has_child(pre_rt.relay_spec(), src, waitfor)
                    ==> pm_has(post_rt.relay_spec(), src) && crate::identity::ids_of(
                    pm_at(post_rt.relay_spec(), src)@,
                ) == seq![waitfor] + (if pm_has(pre_rt.relay_spec(), src) {
                    crate::identity::ids_of(pm_at(pre_rt.relay_spec(), src)@)
                } else {
                    Seq::<Seq<u8>>::empty()
                }))
            })
    &&& (accepted && !Peer::id_gt(pre_rt.local_spec(), waitfor) ==> {
                &&& post_rt.relay_spec() == pre_rt.relay_spec()
                &&& post.terms().term_of(src) == Some(MlbtTerm::Wait)
                &&& (!pm_has(pre_rt.del_spec(), src) ==> pm_has(
                    post_rt.del_spec(),
                    src,
                ) && pm_at(post_rt.del_spec(), src)@ == waitfor)
            })
    &&& (forall|r2: Seq<u8>|
                r2 != src ==> post.terms().term_of(r2) == pre.terms().term_of(r2))
}


/// What `merge_ck_res_cb` leaves behind; the accept/reject dispatcher's
/// contract speaks through this.
pub open spec fn merge_ck_res_cb_post(
    pre: MlbtRelayCtlContext,
    src: Seq<u8>,
    merge_target: Seq<u8>,
    confirm_id: u64,
    accepted: bool,
    post: MlbtRelayCtlContext,
    r: Option<(Peer, RelayCtlMessage)>,
) -> bool {
    &&& (post.stats() == pre.stats())
    &&& (post.waits().slot_of(src, WaitStateType::MergeCheck) is None)
    &&& (post.terms().term_of(src) == Some(MlbtTerm::Init(MergeSubTerm::Idle)))
    &&& (forall|r2: Seq<u8>|
                r2 != src ==> post.terms().term_of(r2) == pre.terms().term_of(r2))
    &&& (accepted ==> (r matches Some((to, m)) && to@ == merge_target && m@.kind
                == RelayMsgKind::ACCEPT && m@.payload == spec_u64_be(confirm_id)))
    &&& (!accepted ==> (r matches Some((to, m)) && to@ == merge_target && m@.kind
                == RelayMsgKind::REJECT && m@.payload == spec_u64_be(confirm_id)))
}


/// What `grant_wait_cb` leaves behind; the accept/reject dispatcher's
/// contract speaks through this.
pub open spec fn grant_wait_cb_post(
    pre: MlbtRelayCtlContext,
    src: Seq<u8>,
    accepted: bool,
    post: MlbtRelayCtlContext,
) -> bool {
    &&& (post.stats() == pre.stats())
    &&& (post.waits().slot_of(src, WaitStateType::GrantWait) is None)
    &&& (forall|p2: Seq<u8>, t2: WaitStateType|
                p2 != src || t2 != WaitStateType::GrantWait ==> post.waits().slot_of(
                    p2,
                    t2,
                ) == pre.waits().slot_of(p2, t2))
    &&& (accepted ==> post.terms() == pre.terms())
    &&& (!accepted ==> {
                match pre.terms().term_of(src) {
                    Some(MlbtTerm::Estb(j, _)) => post.terms().term_of(src) == Some(
                        MlbtTerm::Estb(j, BalanceSubTerm::Idle),
                    ),
                    _ => post.terms() == pre.terms(),
                }
            })
}


/// What `grant_join_cb` leaves behind; the accept/reject dispatcher's
/// contract speaks through this.
pub open spec fn grant_join_cb_post(
    pre: MlbtRelayCtlContext,
    sender: Seq<u8>,
    src: Seq<u8>,
    incoming_id: u64,
    accepted: bool,
    post: MlbtRelayCtlContext,
    r: Option<(Peer, RelayCtlMessage)>,
) -> bool {
    &&& (post.stats() == pre.stats())
    &&& (post.waits().slot_of(src, WaitStateType::GrantJoin) is None)
    &&& (accepted ==> (r matches Some((to, m)) && to@ == sender && m@.kind
                == RelayMsgKind::ACCEPT && m@.payload == spec_u64_be(incoming_id)) && post.terms().term_of(src) == Some(
                MlbtTerm::Estb(JoinSubTerm::PreJoin, BalanceSubTerm::GrantWait),
            ))
    &&& (!accepted ==> r is None && post.terms().term_of(src) == Some(
                MlbtTerm::Estb(JoinSubTerm::Idle, BalanceSubTerm::Idle),
            ))
}


/// What `retract_wait_cb` leaves behind; the accept/reject dispatcher's
/// contract speaks through this.
pub open spec fn retract_wait_cb_post(
    pre: MlbtRelayCtlContext,
    src: Seq<u8>,
    accepted: bool,
    post: MlbtRelayCtlContext,
) -> bool {
    &&& (post.stats() == pre.stats())
    &&& (post.waits().slot_of(src, WaitStateType::RetractWait) is None)
    &&& (accepted ==> post.terms() == pre.terms())
    &&& (!accepted ==> {
                match pre.terms().term_of(src) {
                    Some(MlbtTerm::Estb(j, _)) => post.terms().term_of(src) == Some(
                        MlbtTerm::Estb(j, BalanceSubTerm::Idle),
                    ),
                    _ => post.terms() == pre.terms(),
                }
            })
}


/// One optional reply, as the dispatcher's batch.
pub open spec fn opt_reply_seq(r: Option<(Peer, RelayCtlMessage)>) -> Seq<(Peer, RelayCtlMessage)> {
    match r {
        Some(x) => seq![x],
        None => Seq::empty(),
    }
}

/// Some armed slot of some source carries exactly this data and answers to
/// the acknowledged id.
pub open spec fn wait_armed_with_id(wl: WaitList, d: WaitDataView, ack: u64) -> bool {
    exists|i: int, t: WaitStateType|
        0 <= i < wl.entries().len() && ((#[trigger] wl.entries()[i].1.slot(t)) matches Some(ws)
            && ws.inner@ == d && wait_id_of(d) == Some(ack))
}

/// The matched slot of this kind is disarmed and nothing else moves: the
/// disposition of an answer whose handshake keeps no callback.
pub open spec fn cleared_slot_post(
    pre: MlbtRelayCtlContext,
    src: Seq<u8>,
    t: WaitStateType,
    post: MlbtRelayCtlContext,
) -> bool {
    &&& post.terms() == pre.terms()
    &&& post.stats() == pre.stats()
    &&& post.seq_spec() == pre.seq_spec()
    &&& post.grant_prev_spec() == pre.grant_prev_spec()
    &&& post.waits().slot_of(src, t) is None
    &&& (forall|p2: Seq<u8>, t2: WaitStateType|
        p2 != src || t2 != t ==> post.waits().slot_of(p2, t2) == pre.waits().slot_of(p2, t2))
}

/// The disposition an answer takes once a slot matches: the slot's kind
/// selects the callback, and the callback's own contract describes the new
/// state and the replies.
pub open spec fn dispatch_case(
    pre: MlbtRelayCtlContext,
    pre_rt: RouteTable,
    d: WaitDataView,
    incoming_id: u64,
    pos: bool,
    post: MlbtRelayCtlContext,
    post_rt: RouteTable,
    out: Seq<(Peer, RelayCtlMessage)>,
) -> bool {
    match d.kind {
        WaitStateType::JoinWait => exists|ro: Option<(Peer, RelayCtlMessage)>|
            join_wait_cb_post(pre, pre_rt, d.src, d.peer, incoming_id, pos, post, post_rt, ro)
                && out == opt_reply_seq(ro),
        WaitStateType::JoinPre => join_pre_cb_post(pre, pre_rt, d.src, d.peer, pos, post, post_rt)
            && out.len() == 0,
        WaitStateType::MergeWait => exists|ro: Option<(Peer, RelayCtlMessage)>|
            merge_wait_cb_post(pre, d.src, d.peer, incoming_id, pos, post, ro) && post_rt == pre_rt
                && out == opt_reply_seq(ro),
        WaitStateType::MergePre => merge_pre_cb_post(pre, pre_rt, d.src, d.peer, pos, post, post_rt)
            && out.len() == 0,
        WaitStateType::MergeCheck => exists|ro: Option<(Peer, RelayCtlMessage)>|
            merge_ck_res_cb_post(pre, d.src, d.peer, d.confirm, pos, post, ro) && post_rt == pre_rt
                && out == opt_reply_seq(ro),
        WaitStateType::GrantWait => grant_wait_cb_post(pre, d.src, pos, post) && post_rt == pre_rt
            && out.len() == 0,
        WaitStateType::GrantJoin => exists|ro: Option<(Peer, RelayCtlMessage)>|
            grant_join_cb_post(pre, d.peer, d.src, incoming_id, pos, post, ro) && post_rt == pre_rt
                && out == opt_reply_seq(ro),
        WaitStateType::RetractWait => retract_wait_cb_post(pre, d.src, pos, post) && post_rt
            == pre_rt && out.len() == 0,
        WaitStateType::RetractJoin => cleared_slot_post(pre, d.src, WaitStateType::RetractJoin, post)
            && post_rt == pre_rt && out.len() == 0,
        WaitStateType::RetractRecv => cleared_slot_post(pre, d.src, WaitStateType::RetractRecv, post)
            && post_rt == pre_rt && out.len() == 0,
        _ => false,
    }
}

/// What the accept/reject dispatcher leaves behind: an ill-formed
/// acknowledgement or one no armed slot answers to is dropped without a
/// trace; otherwise some matching slot's kind selects the callback and the
/// state and replies are that callback's.
pub open spec fn decision_post(
    pre: MlbtRelayCtlContext,
    pre_rt: RouteTable,
    payload: Seq<u8>,
    incoming_id: u64,
    pos: bool,
    post: MlbtRelayCtlContext,
    post_rt: RouteTable,
    out: Seq<(Peer, RelayCtlMessage)>,
) -> bool {
    &&& (payload.len() != 8 ==> post == pre && post_rt == pre_rt && out.len() == 0)
    &&& (payload.len() == 8 ==> {
        let ack = crate::codec::spec_u64_from_be(
            payload[0],
            payload[1],
            payload[2],
            payload[3],
            payload[4],
            payload[5],
            payload[6],
            payload[7],
        );
        &&& ((forall|i: int|
            0 <= i < pre.waits().entries().len() ==> !(#[trigger] pre.waits().entries()[i].1).has_id(
                ack,
            )) ==> post == pre && post_rt == pre_rt && out.len() == 0)
        &&& ((exists|i: int|
            0 <= i < pre.waits().entries().len() && (#[trigger] pre.waits().entries()[i].1).has_id(
                ack,
            )) ==> exists|d: WaitDataView|
            wait_armed_with_id(pre.waits(), d, ack) && dispatch_case(
                pre,
                pre_rt,
                d,
                incoming_id,
                pos,
                post,
                post_rt,
                out,
            ))
    })
}

/// What `join_cb` leaves behind; the inbound callback's contract
/// speaks through this.
pub open spec fn join_cb_post(
    pre: MlbtRelayCtlContext,
    pre_rt: RouteTable,
    sender: Seq<u8>,
    msg: RelayCtlMessageView,
    post: MlbtRelayCtlContext,
    post_rt: RouteTable,
    r: Option<(Peer, RelayCtlMessage)>,
) -> bool {
    &&& (post_rt == pre_rt)
    &&& (post.terms() == pre.terms())
    &&& (post.stats() == pre.stats())
    &&& (msg.payload.len() != 32 ==> r is None && post.waits() == pre.waits())
    &&& (msg.payload.len() == 32 ==> {
                let src = msg.payload;
                let term = pre.terms().term_of(src);
                let wait = pre.waits().slot_of(src, WaitStateType::JoinWait);
                if relay_sum(pre_rt.relay_spec()) >= MAX_LINK {
                    // At the link budget every join is answered with a
                    // refusal and no state moves.
                    r matches Some((to, m)) && to@ == sender && m@.kind == RelayMsgKind::REJECT
                        && m@.payload == spec_u64_be(msg.id) && post.waits() == pre.waits()
                } else if term is None {
                    r is None && post.waits() == pre.waits()
                } else if !(term matches Some(MlbtTerm::Estb(_, _))) {
                    r matches Some((to, m)) && to@ == sender && m@.kind == RelayMsgKind::REJECT
                        && m@.payload == spec_u64_be(msg.id) && post.waits() == pre.waits()
                } else if !pre.waits().is_waiting_spec(src) {
                    // Free to accept: the accept is sent and the join-pre
                    // slot armed with its id.
                    r matches Some((to, m)) && to@ == sender && m@.kind == RelayMsgKind::ACCEPT
                        && m@.payload == spec_u64_be(msg.id) && m@.id == pre.seq_spec() + 1
                        && (post.waits().slot_of(src, WaitStateType::JoinPre) matches Some(
                        ws,
                    ) && ws.inner@.kind == WaitStateType::JoinPre && ws.inner@.src == src
                        && ws.inner@.peer == sender && ws.inner@.id == pre.seq_spec() + 1)
                } else if wait matches Some(ws) && ws.inner@.kind == WaitStateType::JoinWait
                    && ws.inner@.peer == sender && Peer::id_gt(
                    pre_rt.local_spec(),
                    sender,
                ) {
                    // Symmetric tie-break: both sides joined each other; the
                    // larger id accepts and the join-wait gives way to the
                    // join-pre.
                    r matches Some((to, m)) && to@ == sender && m@.kind == RelayMsgKind::ACCEPT
                        && m@.payload == spec_u64_be(msg.id) && m@.id == pre.seq_spec() + 1
                        && post.waits().slot_of(src, WaitStateType::JoinWait) is None && (
                    post.waits().slot_of(src, WaitStateType::JoinPre) matches Some(ws2)
                        && ws2.inner@.kind == WaitStateType::JoinPre && ws2.inner@.src == src
                        && ws2.inner@.peer == sender && ws2.inner@.id == pre.seq_spec() + 1)
                } else {
                    r matches Some((to, m)) && to@ == sender && m@.kind == RelayMsgKind::REJECT
                        && m@.payload == spec_u64_be(msg.id) && post.waits() == pre.waits()
                }
            })
}

/// What `leave_cb` leaves behind; the inbound callback's contract
/// speaks through this.
pub open spec fn leave_cb_post(
    pre: MlbtRelayCtlContext,
    pre_rt: RouteTable,
    sender: Seq<u8>,
    msg: RelayCtlMessageView,
    post: MlbtRelayCtlContext,
    post_rt: RouteTable,
) -> bool {
    &&& (post == pre)
    &&& (post_rt.local_spec() == pre_rt.local_spec())
    &&& (post_rt.del_spec() == pre_rt.del_spec())
    &&& (post_rt.path_spec() == pre_rt.path_spec())
    &&& (msg.payload.len() != 32 ==> post_rt.relay_spec() == pre_rt.relay_spec())
    &&& (msg.payload.len() == 32 && !crate::route::relay_has_child(
                pre_rt.relay_spec(),
                msg.payload,
                sender,
            ) ==> post_rt.relay_spec() == pre_rt.relay_spec())
    &&& (msg.payload.len() == 32 && crate::route::relay_has_child(
                pre_rt.relay_spec(),
                msg.payload,
                sender,
            ) ==> relay_sum(post_rt.relay_spec()) == relay_sum(
                pre_rt.relay_spec(),
            ) - 1 && !crate::route::relay_has_child(
                post_rt.relay_spec(),
                msg.payload,
                sender,
            ))
}

/// What `merge_cb` leaves behind; the inbound callback's contract
/// speaks through this.
pub open spec fn merge_cb_post(
    pre: MlbtRelayCtlContext,
    pre_rt: RouteTable,
    sender: Seq<u8>,
    msg: RelayCtlMessageView,
    post: MlbtRelayCtlContext,
    post_rt: RouteTable,
    r: Option<(Peer, RelayCtlMessage)>,
) -> bool {
    &&& (post_rt == pre_rt)
    &&& (post.stats() == pre.stats())
    &&& (crate::mlbt_message::spec_decode_merge(msg.payload) is None ==> r is None && post == pre)
    &&& (crate::mlbt_message::spec_decode_merge(msg.payload) matches Some(
                (remote_weight, remote_thrd, src),
            ) ==> {
                let stats_known = pm_has(pre.stats().trees_spec(), src);
                let stat = pm_at(pre.stats().trees_spec(), src);
                let cond = MlbtRelayCtlContext::spec_merge_cond(
                    remote_weight,
                    stat.relay_inv,
                    remote_thrd,
                    stat.merge_thrd,
                );
                let term = pre.terms().term_of(src);
                if !stats_known {
                    r is None && post == pre
                } else if !cond {
                    (r matches Some((to, m)) && to@ == sender && m@.kind == RelayMsgKind::REJECT
                        && m@.payload == spec_u64_be(msg.id)) && post.waits() == pre.waits() && post.terms() == pre.terms()
                } else if term == Some(MlbtTerm::Init(MergeSubTerm::Idle)) {
                    (r matches Some((to, m)) && to@ == sender && m@.kind == RelayMsgKind::ACCEPT
                        && m@.payload == spec_u64_be(msg.id)) && post.terms().term_of(src)
                        == Some(MlbtTerm::Init(MergeSubTerm::PreMerge)) && (post.waits().slot_of(src, WaitStateType::MergePre) matches Some(ws)
                        && ws.inner@.kind == WaitStateType::MergePre && ws.inner@.src == src
                        && ws.inner@.peer == sender && ws.inner@.id == msg.id)
                } else if term is None {
                    r is None && post.waits() == pre.waits() && post.terms()
                        == pre.terms()
                } else {
                    (r matches Some((to, m)) && to@ == sender && m@.kind == RelayMsgKind::REJECT
                        && m@.payload == spec_u64_be(msg.id)) && post.waits() == pre.waits() && post.terms() == pre.terms()
                }
            })
}

/// What `merge_ck_cb` leaves behind; the inbound callback's contract
/// speaks through this.
pub open spec fn merge_ck_cb_post(
    pre: MlbtRelayCtlContext,
    pre_rt: RouteTable,
    sender: Seq<u8>,
    msg: RelayCtlMessageView,
    post: MlbtRelayCtlContext,
    post_rt: RouteTable,
    r: Option<(Peer, RelayCtlMessage)>,
) -> bool {
    &&& (post_rt == pre_rt)
    &&& (post.terms() == pre.terms())
    &&& (post.stats() == pre.stats())
    &&& (post.waits() == pre.waits())
    &&& (msg.payload.len() != 8 ==> r is None)
    &&& (msg.payload.len() == 8 ==> {
                let local = pre_rt.local_spec();
                let term = pre.terms().term_of(local);
                let known = pm_has(pre.stats().trees_spec(), local);
                let cw = pm_at(pre.stats().trees_spec(), local).relay_inv;
                let nw = crate::codec::spec_u64_from_be(
                    msg.payload[0],
                    msg.payload[1],
                    msg.payload[2],
                    msg.payload[3],
                    msg.payload[4],
                    msg.payload[5],
                    msg.payload[6],
                    msg.payload[7],
                );
                if !(term matches Some(MlbtTerm::Init(_))) {
                    r is None
                } else if !known {
                    r is None
                } else if nw > cw {
                    r matches Some((to, m)) && to@ == sender && m@.kind == RelayMsgKind::REJECT
                        && m@.payload == spec_u64_be(msg.id)
                } else {
                    r matches Some((to, m)) && to@ == sender && m@.kind == RelayMsgKind::ACCEPT
                        && m@.payload == spec_u64_be(msg.id)
                }
            })
}

/// What `grant_cb` leaves behind; the inbound callback's contract
/// speaks through this.
pub open spec fn grant_cb_post(
    pre: MlbtRelayCtlContext,
    pre_rt: RouteTable,
    sender: Seq<u8>,
    msg: RelayCtlMessageView,
    post: MlbtRelayCtlContext,
    post_rt: RouteTable,
    r: Seq<(Peer, RelayCtlMessage)>,
) -> bool {
    &&& (post_rt == pre_rt)
    &&& (post.stats() == pre.stats())
    &&& (crate::mlbt_message::spec_decode_grant(msg.payload) is None ==> r.len() == 0
                && post == pre)
    &&& (crate::mlbt_message::spec_decode_grant(msg.payload) matches Some((target, oj, src))
                ==> {
                let term = pre.terms().term_of(src);
                let stats_known = pm_has(pre.stats().trees_spec(), src) && pm_has(
                    pre.stats().neighbours_spec(),
                    target,
                );
                let oi = pm_at(pre.stats().trees_spec(), src).src_inv;
                let dim = pm_at(pre.stats().neighbours_spec(), target).delay_ts;
                if term is None {
                    r.len() == 0 && post == pre
                } else if !(term matches Some(MlbtTerm::Estb(_, BalanceSubTerm::Idle))) {
                    r.len() == 1 && (r[0].1@.kind == RelayMsgKind::REJECT && r[0].0@ == sender
                        && r[0].1@.payload == spec_u64_be(msg.id)) && post.terms() == pre.terms() && post.waits() == pre.waits()
                } else if !stats_known {
                    r.len() == 0 && post == pre
                } else if (oi as int) - (oj as int) > (dim as int) {
                    r.len() == 2 && (r[0].1@.kind == RelayMsgKind::ACCEPT && r[0].0@ == sender
                        && r[0].1@.payload == spec_u64_be(msg.id)) && (r[1].0@ == target
                        && r[1].1@.kind == RelayMsgKind::GRANT_INFO && r[1].1@.payload == src)
                        && post.terms().term_of(src) == Some(
                        MlbtTerm::Estb(JoinSubTerm::Request, BalanceSubTerm::GrantCheck),
                    ) && (post.waits().slot_of(src, WaitStateType::GrantRecv) matches Some(
                        ws,
                    ) && ws.inner@.kind == WaitStateType::GrantRecv && ws.inner@.src == src
                        && ws.inner@.peer == target)
                } else {
                    r.len() == 1 && (r[0].1@.kind == RelayMsgKind::REJECT && r[0].0@ == sender
                        && r[0].1@.payload == spec_u64_be(msg.id)) && post.terms() == pre.terms() && post.waits() == pre.waits()
                }
            })
}

/// What `grant_info_cb` leaves behind; the inbound callback's contract
/// speaks through this.
pub open spec fn grant_info_cb_post(
    pre: MlbtRelayCtlContext,
    sender: Seq<u8>,
    msg: RelayCtlMessageView,
    post: MlbtRelayCtlContext,
    r: Option<(Peer, RelayCtlMessage)>,
) -> bool {
    &&& (post.stats() == pre.stats())
    &&& (msg.payload.len() != 32 ==> r is None && post == pre)
    &&& (msg.payload.len() == 32 ==> {
                let src = msg.payload;
                if pre.terms().term_of(src) matches Some(
                    MlbtTerm::Estb(_, BalanceSubTerm::Idle),
                ) {
                    (r matches Some((to, m)) && to@ == sender && m@.kind == RelayMsgKind::ACCEPT
                        && m@.payload == spec_u64_be(msg.id)) && post.terms().term_of(src)
                        == Some(MlbtTerm::Estb(JoinSubTerm::Request, BalanceSubTerm::GrantPre))
                        && (post.waits().slot_of(src, WaitStateType::GrantJoin)
                        matches Some(ws) && ws.inner@.kind == WaitStateType::GrantJoin
                        && ws.inner@.src == src && ws.inner@.peer == sender)
                } else {
                    (r matches Some((to, m)) && to@ == sender && m@.kind == RelayMsgKind::REJECT
                        && m@.payload == spec_u64_be(msg.id)) && post.terms() == pre.terms() && post.waits() == pre.waits()
                }
            })
}


/// Encoded control replies correspond one for one, in order, to the plane's
/// replies: same addressee, and the bytes are exactly that reply's wire form.
pub open spec fn ctl_replies_encoded(
    out: Seq<(Peer, Vec<u8>)>,
    rep: Seq<(Peer, RelayCtlMessage)>,
) -> bool {
    &&& out.len() == rep.len()
    &&& (forall|i: int|
        0 <= i < out.len() ==> (#[trigger] out[i]).0@ == rep[i].0@ && out[i].1@
            == crate::mlbt_message::spec_ctl_body(rep[i].1@))
}

/// What one inbound relay-control message leaves behind: an undecodable one
/// changes nothing; a decodable one is handled after a timer sweep at some
/// instant, and the message's kind selects the handler, whose own contract
/// describes the state change and the encoded replies. The retract answer
/// path is not taken up: its wire form names no peer to re-join toward, so
/// those messages are dropped and the asking side times out.
pub open spec fn callback_post(
    pre: MlbtRelayCtlContext,
    pre_rt: RouteTable,
    sender: Seq<u8>,
    msg: Seq<u8>,
    post: MlbtRelayCtlContext,
    post_rt: RouteTable,
    out: Seq<(Peer, Vec<u8>)>,
) -> bool {
    match crate::mlbt_message::spec_decode_ctl(msg) {
        None => post == pre && post_rt == pre_rt && out.len() == 0,
        Some(m) => exists|mid: MlbtRelayCtlContext, now: u64|
            #![trigger sweep_post(pre, mid, now)]
            {
                &&& mid.wf()
                &&& sweep_post(pre, mid, now)
                &&& match m.kind {
                    RelayMsgKind::ACCEPT => exists|rep: Seq<(Peer, RelayCtlMessage)>|
                        decision_post(mid, pre_rt, m.payload, m.id, true, post, post_rt, rep)
                            && ctl_replies_encoded(out, rep),
                    RelayMsgKind::REJECT => exists|rep: Seq<(Peer, RelayCtlMessage)>|
                        decision_post(mid, pre_rt, m.payload, m.id, false, post, post_rt, rep)
                            && ctl_replies_encoded(out, rep),
                    RelayMsgKind::JOIN => exists|ro: Option<(Peer, RelayCtlMessage)>|
                        join_cb_post(mid, pre_rt, sender, m, post, post_rt, ro)
                            && ctl_replies_encoded(out, opt_reply_seq(ro)),
                    RelayMsgKind::LEAVE => leave_cb_post(mid, pre_rt, sender, m, post, post_rt)
                        && out.len() == 0,
                    RelayMsgKind::MERGE => exists|ro: Option<(Peer, RelayCtlMessage)>|
                        merge_cb_post(mid, pre_rt, sender, m, post, post_rt, ro)
                            && ctl_replies_encoded(out, opt_reply_seq(ro)),
                    RelayMsgKind::MERGE_CHECK => exists|ro: Option<(Peer, RelayCtlMessage)>|
                        merge_ck_cb_post(mid, pre_rt, sender, m, post, post_rt, ro)
                            && ctl_replies_encoded(out, opt_reply_seq(ro)),
                    RelayMsgKind::GRANT => exists|rep: Seq<(Peer, RelayCtlMessage)>|
                        grant_cb_post(mid, pre_rt, sender, m, post, post_rt, rep)
                            && ctl_replies_encoded(out, rep),
                    RelayMsgKind::GRANT_INFO => exists|ro: Option<(Peer, RelayCtlMessage)>|
                        grant_info_cb_post(mid, sender, m, post, ro) && post_rt == pre_rt
                            && ctl_replies_encoded(out, opt_reply_seq(ro)),
                    RelayMsgKind::RETRACT => post == mid && post_rt == pre_rt && out.len() == 0,
                    RelayMsgKind::RETRACT_INFO => post == mid && post_rt == pre_rt && out.len()
                        == 0,
                    RelayMsgKind::RETRACT_REPLY => post == mid && post_rt == pre_rt && out.len()
                        == 0,
                }
            },
    }
}

/// What one heartbeat owes each listed source, judged from the post-sweep
/// state `mid`: an idle source has a JOIN toward its tree's root in the
/// batch and its join-wait slot armed; a merge-idle source with known
/// statistics has its MERGE proposal in the batch, its term requesting and
/// its merge-wait slot armed.
pub open spec fn heartbeat_source_post(
    mid: MlbtRelayCtlContext,
    rt: RouteTable,
    post: MlbtRelayCtlContext,
    out: Seq<(Peer, Vec<u8>)>,
    s: Seq<u8>,
) -> bool {
    &&& (mid.terms().term_of(s) == Some(MlbtTerm::Idle) ==> {
        &&& (exists|k: int|
            0 <= k < out.len() && (#[trigger] out[k]).0@ == s && (exists|id: u64|
                out[k].1@ == #[trigger] crate::mlbt_message::spec_ctl_body(
                    RelayCtlMessageView { kind: RelayMsgKind::JOIN, id: id, payload: s },
                )))
        &&& (post.waits().slot_of(s, WaitStateType::JoinWait) matches Some(ws) && ws.inner@.kind
            == WaitStateType::JoinWait && ws.inner@.src == s && ws.inner@.peer == s)
    })
    &&& (mid.terms().term_of(s) == Some(MlbtTerm::Init(MergeSubTerm::Idle)) && pm_has(
        mid.stats().trees_spec(),
        s,
    ) ==> {
        let stat = pm_at(mid.stats().trees_spec(), s);
        &&& (exists|k: int|
            0 <= k < out.len() && (#[trigger] out[k]).0@ == s && (exists|id: u64|
                out[k].1@ == #[trigger] crate::mlbt_message::spec_ctl_body(
                    RelayCtlMessageView {
                        kind: RelayMsgKind::MERGE,
                        id: id,
                        payload: crate::mlbt_message::spec_merge_body(
                            stat.relay_inv,
                            stat.merge_thrd,
                            s,
                        ),
                    },
                )))
        &&& post.terms().term_of(s) == Some(MlbtTerm::Init(MergeSubTerm::Request))
        &&& (post.waits().slot_of(s, WaitStateType::MergeWait) matches Some(ws) && ws.inner@.kind
            == WaitStateType::MergeWait && ws.inner@.src == s && ws.inner@.peer == s)
    })
}

/// What one heartbeat owes all the listed sources together.
pub open spec fn heartbeat_post(
    mid: MlbtRelayCtlContext,
    rt: RouteTable,
    post: MlbtRelayCtlContext,
    out: Seq<(Peer, Vec<u8>)>,
) -> bool {
    forall|i: int|
        0 <= i < rt.del_spec().len() ==> heartbeat_source_post(
            mid,
            rt,
            post,
            out,
            (#[trigger] rt.del_spec()[i]).0,
        )
}

/// The waits store after a timer sweep at `now`: every slot past its
/// deadline is consumed, and every other slot — of every source and kind —
/// survives untouched.
pub open spec fn sweep_waits(pre: WaitList, post: WaitList, now: u64) -> bool {
    forall|p: Seq<u8>, t: WaitStateType|
        #![trigger post.slot_of(p, t)]
        post.slot_of(p, t) == (if slot_stale(pre, p, t, now) {
            Option::<WaitState>::None
        } else {
            pre.slot_of(p, t)
        })
}

/// A timer sweep may only recover terms: an initializing source falls back
/// to merge-idle, an established one keeps its join sub-state and falls back
/// to balance-idle; everything else stays.
pub open spec fn sweep_terms(pre: MlbtTermList, post: MlbtTermList) -> bool {
    forall|r2: Seq<u8>|
        #![trigger post.term_of(r2)]
        post.term_of(r2) == pre.term_of(r2) || (post.term_of(r2) == Some(
            MlbtTerm::Init(MergeSubTerm::Idle),
        ) && (pre.term_of(r2) matches Some(MlbtTerm::Init(_)))) || (pre.term_of(r2) matches Some(
            MlbtTerm::Estb(j, _),
        ) && post.term_of(r2) == Some(MlbtTerm::Estb(j, BalanceSubTerm::Idle)))
}

/// What one timer sweep does to the whole plane: waits swept exactly, terms
/// at most recovered, everything else untouched.
pub open spec fn sweep_post(pre: MlbtRelayCtlContext, post: MlbtRelayCtlContext, now: u64) -> bool {
    &&& post.stats() == pre.stats()
    &&& post.seq_spec() == pre.seq_spec()
    &&& post.grant_prev_spec() == pre.grant_prev_spec()
    &&& sweep_waits(pre.waits(), post.waits(), now)
    &&& sweep_terms(pre.terms(), post.terms())
}

/// Term recovery is transitive: two sweeps in a row still only recover.
proof fn lemma_sweep_terms_trans(a: MlbtTermList, b: MlbtTermList, c: MlbtTermList)
    requires
        sweep_terms(a, b),
        sweep_terms(b, c),
    ensures
        sweep_terms(a, c),
{
    assert forall|r2: Seq<u8>|
        #![trigger c.term_of(r2)]
        c.term_of(r2) == a.term_of(r2) || (c.term_of(r2) == Some(MlbtTerm::Init(MergeSubTerm::Idle))
            && (a.term_of(r2) matches Some(MlbtTerm::Init(_)))) || (a.term_of(r2) matches Some(
        MlbtTerm::Estb(j, _),
    ) && c.term_of(r2) == Some(MlbtTerm::Estb(j, BalanceSubTerm::Idle))) by {
        assert(b.term_of(r2) == a.term_of(r2) || (b.term_of(r2) == Some(
            MlbtTerm::Init(MergeSubTerm::Idle),
        ) && (a.term_of(r2) matches Some(MlbtTerm::Init(_)))) || (a.term_of(r2) matches Some(
            MlbtTerm::Estb(j, _),
        ) && b.term_of(r2) == Some(MlbtTerm::Estb(j, BalanceSubTerm::Idle))));
    }
}

/// The slot is armed and already past its deadline as of `now`.
pub open spec fn slot_stale(wl: WaitList, p: Seq<u8>, t: WaitStateType, now: u64) -> bool {
    match wl.slot_of(p, t) {
        Some(ws) => ws.wait_timer.spec_timed_out_at(now),
        None => false,
    }
}

/// The children listed for a source, as id sequences; empty for an unknown
/// source.
pub open spec fn relay_children(relay: Seq<(Seq<u8>, Vec<Peer>)>, src: Seq<u8>) -> Seq<Seq<u8>> {
    if pm_has(relay, src) {
        crate::identity::ids_of(pm_at(relay, src)@)
    } else {
        Seq::empty()
    }
}

/// Handing child `a` over to child `b` is worthwhile: both are children,
/// all three measurements are known, and our interval plus `b`'s observed
/// interval exceeds the delay to `a`.
pub open spec fn grant_eligible(
    stats: MlbtStatList,
    src: Seq<u8>,
    children: Seq<Seq<u8>>,
    a: int,
    b: int,
) -> bool {
    &&& 0 <= a < children.len()
    &&& 0 <= b < children.len()
    &&& a != b
    &&& pm_has(stats.trees_spec(), src)
    &&& pm_has(stats.neighbours_spec(), children[a])
    &&& pm_has(pm_at(stats.trees_spec(), src).src_inv_desc@, children[b])
    &&& (pm_at(stats.trees_spec(), src).src_inv as int) + (pm_at(
        pm_at(stats.trees_spec(), src).src_inv_desc@,
        children[b],
    ) as int) > (pm_at(stats.neighbours_spec(), children[a]).delay_ts as int)
}

/// Asking child `b` to give up a child is worthwhile, measured against
/// child `m` as the lightest: all measurements are known and `b`'s observed
/// interval exceeds our own by more than the delay to `m`.
pub open spec fn retract_eligible(
    stats: MlbtStatList,
    src: Seq<u8>,
    children: Seq<Seq<u8>>,
    m: int,
    b: int,
) -> bool {
    &&& 0 <= m < children.len()
    &&& 0 <= b < children.len()
    &&& pm_has(stats.trees_spec(), src)
    &&& pm_has(stats.neighbours_spec(), children[m])
    &&& pm_has(pm_at(stats.trees_spec(), src).src_inv_desc@, children[b])
    &&& (pm_at(pm_at(stats.trees_spec(), src).src_inv_desc@, children[b]) as int) - (pm_at(
        stats.trees_spec(),
        src,
    ).src_inv as int) > (pm_at(stats.neighbours_spec(), children[m]).delay_ts as int)
}

/// Without a statistics record for the source no grant pair is eligible.
proof fn lemma_no_tree_no_grant(stats: MlbtStatList, src: Seq<u8>, children: Seq<Seq<u8>>)
    requires
        !pm_has(stats.trees_spec(), src),
    ensures
        forall|a: int, b: int| !grant_eligible(stats, src, children, a, b),
{
}


/// The smaller of two 64-bit values.
pub open spec fn min_u64(a: u64, b: u64) -> u64 {
    if a < b {
        a
    } else {
        b
    }
}

/// The absolute difference of two mathematical integers.
pub open spec fn abs_diff(a: int, b: int) -> int {
    if a >= b {
        a - b
    } else {
        b - a
    }
}

} // verus!
