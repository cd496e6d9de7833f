//! The per-source statistics the relay-control plane decides by.
//!
//! For each source: `src_inv`, the time from payload emission at the root to
//! local completion of relay; `relay_inv`, the time from local receipt to the
//! last child's completion; the merge threshold; and both intervals as
//! observed for each child. For each neighbour: a moving average of the hop
//! delay. All getters yield `None` for an unknown source, and callers skip
//! the decision for that round.

use vstd::prelude::*;

use crate::identity::Peer;
use crate::peer_map::{PeerMap, pm_at, pm_has, pm_insert_rel, pm_wf};

verus! {

/// The window of the hop-delay moving average.
pub const DELAY_AVERAGE_WD: u64 = 10;

/// A node's own statistics in one tree.
#[derive(Debug)]
pub struct MlbtStat {
    pub src_inv: u64,
    pub relay_inv: u64,
    pub merge_thrd: u64,
    pub src_inv_desc: PeerMap<u64>,
    pub relay_inv_desc: PeerMap<u64>,
}

impl MlbtStat {
    /// A fresh record: intervals start at zero; the merge threshold starts at
    /// its default and is never zero.
    pub fn new() -> (r: Self)
        ensures
            r.src_inv == 0,
            r.relay_inv == 0,
            r.merge_thrd == 500,
            r.src_inv_desc@.len() == 0,
            r.relay_inv_desc@.len() == 0,
            r.wf(),
    {
        Self {
            src_inv: 0,
            relay_inv: 0,
            merge_thrd: 500,
            src_inv_desc: PeerMap::new(),
            relay_inv_desc: PeerMap::new(),
        }
    }

    /// Per-child tables hold each child once; the merge threshold is never
    /// zero.
    pub open spec fn wf(&self) -> bool {
        pm_wf(self.src_inv_desc@) && pm_wf(self.relay_inv_desc@) && self.merge_thrd > 0
    }
}

/// What one neighbour's hop delay has averaged to.
#[derive(Debug)]
pub struct NeighbourStat {
    pub delay_ts: u64,
}

/// All statistics of this node: its own record per tree, and the delay
/// average per neighbour.
pub struct MlbtStatList {
    inner_list: PeerMap<MlbtStat>,
    neighbour_list: PeerMap<NeighbourStat>,
}

impl MlbtStatList {
    /// The per-tree records.
    pub closed spec fn trees_spec(&self) -> Seq<(Seq<u8>, MlbtStat)> {
        self.inner_list@
    }

    /// The per-neighbour records.
    pub closed spec fn neighbours_spec(&self) -> Seq<(Seq<u8>, NeighbourStat)> {
        self.neighbour_list@
    }

    /// Keys are unique and every per-tree record is well formed.
    pub open spec fn wf(&self) -> bool {
        &&& pm_wf(self.trees_spec())
        &&& pm_wf(self.neighbours_spec())
        &&& forall|i: int|
            0 <= i < self.trees_spec().len() ==> (#[trigger] self.trees_spec()[i].1).wf()
    }

    /// An empty store.
    pub fn new() -> (r: Self)
        ensures
            r.trees_spec().len() == 0,
            r.neighbours_spec().len() == 0,
            r.wf(),
    {
        Self { inner_list: PeerMap::new(), neighbour_list: PeerMap::new() }
    }

    /// This node's src-interval in the given tree.
    pub fn src_inv(&self, tr: &Peer) -> (r: Option<u64>)
        requires
            self.wf(),
        ensures
            match r {
                Some(v) => pm_has(self.trees_spec(), tr@) && pm_at(self.trees_spec(), tr@).src_inv
                    == v,
                None => !pm_has(self.trees_spec(), tr@),
            },
    {
        match self.inner_list.get(tr) {
            Some(stat) => Some(stat.src_inv),
            None => None,
        }
    }

    /// This node's relay-interval in the given tree.
    pub fn relay_inv(&self, tr: &Peer) -> (r: Option<u64>)
        requires
            self.wf(),
        ensures
            match r {
                Some(v) => pm_has(self.trees_spec(), tr@) && pm_at(self.trees_spec(), tr@).relay_inv
                    == v,
                None => !pm_has(self.trees_spec(), tr@),
            },
    {
        match self.inner_list.get(tr) {
            Some(stat) => Some(stat.relay_inv),
            None => None,
        }
    }

    /// The merge threshold in the given tree; never zero when present.
    pub fn merge_thrd(&self, tr: &Peer) -> (r: Option<u64>)
        requires
            self.wf(),
        ensures
            match r {
                Some(v) => pm_has(self.trees_spec(), tr@) && pm_at(
                    self.trees_spec(),
                    tr@,
                ).merge_thrd == v && v > 0,
                None => !pm_has(self.trees_spec(), tr@),
            },
    {
        match self.inner_list.get(tr) {
            Some(stat) => {
                proof {
                    let i = crate::peer_map::pm_idx(self.trees_spec(), tr@);
                    assert(self.trees_spec()[i].1.wf());
                }
                Some(stat.merge_thrd)
            },
            None => None,
        }
    }

    /// The src-interval observed for one child of the given tree.
    pub fn src_inv_desc(&self, tr: &Peer, query: &Peer) -> (r: Option<u64>)
        requires
            self.wf(),
        ensures
            match r {
                Some(v) => pm_has(self.trees_spec(), tr@) && pm_has(
                    pm_at(self.trees_spec(), tr@).src_inv_desc@,
                    query@,
                ) && pm_at(pm_at(self.trees_spec(), tr@).src_inv_desc@, query@) == v,
                None => !pm_has(self.trees_spec(), tr@) || !pm_has(
                    pm_at(self.trees_spec(), tr@).src_inv_desc@,
                    query@,
                ),
            },
    {
        match self.inner_list.get(tr) {
            Some(stat) => {
                proof {
                    let i = crate::peer_map::pm_idx(self.trees_spec(), tr@);
                    assert(self.trees_spec()[i].1.wf());
                }
                match stat.src_inv_desc.get(query) {
                    Some(v) => Some(*v),
                    None => None,
                }
            },
            None => None,
        }
    }

    /// The relay-interval observed for one child of the given tree.
    pub fn relay_inv_desc(&self, tr: &Peer, query: &Peer) -> (r: Option<u64>)
        requires
            self.wf(),
        ensures
            match r {
                Some(v) => pm_has(self.trees_spec(), tr@) && pm_has(
                    pm_at(self.trees_spec(), tr@).relay_inv_desc@,
                    query@,
                ) && pm_at(pm_at(self.trees_spec(), tr@).relay_inv_desc@, query@) == v,
                None => !pm_has(self.trees_spec(), tr@) || !pm_has(
                    pm_at(self.trees_spec(), tr@).relay_inv_desc@,
                    query@,
                ),
            },
    {
        match self.inner_list.get(tr) {
            Some(stat) => {
                proof {
                    let i = crate::peer_map::pm_idx(self.trees_spec(), tr@);
                    assert(self.trees_spec()[i].1.wf());
                }
                match stat.relay_inv_desc.get(query) {
                    Some(v) => Some(*v),
                    None => None,
                }
            },
            None => None,
        }
    }

    /// The averaged hop delay to a neighbour.
    pub fn delay_ts(&self, peer: &Peer) -> (r: Option<u64>)
        requires
            self.wf(),
        ensures
            match r {
                Some(v) => pm_has(self.neighbours_spec(), peer@) && pm_at(
                    self.neighbours_spec(),
                    peer@,
                ).delay_ts == v,
                None => !pm_has(self.neighbours_spec(), peer@),
            },
    {
        match self.neighbour_list.get(peer) {
            Some(stat) => Some(stat.delay_ts),
            None => None,
        }
    }

    /// Give a source a fresh default record, overwriting any old one.
    pub fn insert_default(&mut self, tr: &Peer)
        requires
            old(self).wf(),
        ensures
            final(self).wf(),
            final(self).neighbours_spec() == old(self).neighbours_spec(),
            pm_has(final(self).trees_spec(), tr@),
            pm_at(final(self).trees_spec(), tr@).src_inv == 0,
            pm_at(final(self).trees_spec(), tr@).relay_inv == 0,
            pm_at(final(self).trees_spec(), tr@).merge_thrd == 500,
            pm_insert_rel(
                old(self).trees_spec(),
                final(self).trees_spec(),
                tr@,
                pm_at(final(self).trees_spec(), tr@),
            ),
    {
        self.inner_list.insert(tr, MlbtStat::new());
        proof {
            lemma_trees_wf_after_insert(old(self).trees_spec(), self.trees_spec(), tr@);
        }
    }

    /// Fold one new observation of a neighbour's hop delay into its moving
    /// average: the old average weighted by all but one slot of the window,
    /// plus the new value, over the window. A neighbour without a record is
    /// not created.
    pub fn roll_update_delay_ts(&mut self, peer: &Peer, new_delay: u64)
        requires
            old(self).wf(),
        ensures
            final(self).wf(),
            final(self).trees_spec() == old(self).trees_spec(),
            !pm_has(old(self).neighbours_spec(), peer@) ==> final(self).neighbours_spec() == old(
                self,
            ).neighbours_spec(),
            pm_has(old(self).neighbours_spec(), peer@) ==> {
                let prev = pm_at(old(self).neighbours_spec(), peer@).delay_ts;
                &&& pm_has(final(self).neighbours_spec(), peer@)
                &&& pm_at(final(self).neighbours_spec(), peer@).delay_ts == (prev * (
                DELAY_AVERAGE_WD - 1) as u64 + new_delay) as u128 / DELAY_AVERAGE_WD as u128
                &&& pm_insert_rel(
                    old(self).neighbours_spec(),
                    final(self).neighbours_spec(),
                    peer@,
                    pm_at(final(self).neighbours_spec(), peer@),
                )
            },
    {
        let prev = match self.neighbour_list.get(peer) {
            Some(stat) => stat.delay_ts,
            None => {
                return ;
            },
        };
        let wide: u128 = (prev as u128) * ((DELAY_AVERAGE_WD - 1) as u128) + (new_delay as u128);
        let averaged: u64 = (wide / (DELAY_AVERAGE_WD as u128)) as u64;
        proof {
            assert(wide / (DELAY_AVERAGE_WD as u128) <= u64::MAX as u128) by (nonlinear_arith)
                requires
                    wide == (prev as u128) * 9 + (new_delay as u128),
                    prev <= u64::MAX,
                    new_delay <= u64::MAX,
                    DELAY_AVERAGE_WD == 10,
            ;
        }
        self.neighbour_list.insert(peer, NeighbourStat { delay_ts: averaged });
        proof {
            assert(final(self).trees_spec() == old(self).trees_spec());
        }
    }

    /// Overwrite a known source's own src-interval; `None` for an unknown
    /// source, which stays unknown.
    pub fn set_src_inv(&mut self, tr: &Peer, new_value: u64) -> (r: Option<()>)
        requires
            old(self).wf(),
        ensures
            final(self).wf(),
            final(self).neighbours_spec() == old(self).neighbours_spec(),
            r is Some <==> pm_has(old(self).trees_spec(), tr@),
            r is None ==> final(self).trees_spec() == old(self).trees_spec()
                && final(self).neighbours_spec() == old(self).neighbours_spec(),
            r is Some ==> pm_has(final(self).trees_spec(), tr@) && pm_at(
                final(self).trees_spec(),
                tr@,
            ).src_inv == new_value && pm_at(final(self).trees_spec(), tr@).relay_inv == pm_at(
                old(self).trees_spec(),
                tr@,
            ).relay_inv && pm_at(final(self).trees_spec(), tr@).merge_thrd == pm_at(
                old(self).trees_spec(),
                tr@,
            ).merge_thrd && pm_insert_rel(
                old(self).trees_spec(),
                final(self).trees_spec(),
                tr@,
                pm_at(final(self).trees_spec(), tr@),
            ),
    {
        let updated = match self.inner_list.get(tr) {
            Some(stat) => MlbtStat {
                src_inv: new_value,
                relay_inv: stat.relay_inv,
                merge_thrd: stat.merge_thrd,
                src_inv_desc: clone_u64_map(&stat.src_inv_desc),
                relay_inv_desc: clone_u64_map(&stat.relay_inv_desc),
            },
            None => {
                return None;
            },
        };
        proof {
            let i = crate::peer_map::pm_idx(self.trees_spec(), tr@);
            assert(self.trees_spec()[i].1.wf());
        }
        self.inner_list.insert(tr, updated);
        proof {
            lemma_trees_wf_after_insert(old(self).trees_spec(), self.trees_spec(), tr@);
        }
        Some(())
    }

    /// Overwrite a known source's own relay-interval; `None` for an unknown
    /// source, which stays unknown.
    pub fn set_relay_inv(&mut self, tr: &Peer, new_value: u64) -> (r: Option<()>)
        requires
            old(self).wf(),
        ensures
            final(self).wf(),
            final(self).neighbours_spec() == old(self).neighbours_spec(),
            r is Some <==> pm_has(old(self).trees_spec(), tr@),
            r is None ==> final(self).trees_spec() == old(self).trees_spec()
                && final(self).neighbours_spec() == old(self).neighbours_spec(),
            r is Some ==> pm_has(final(self).trees_spec(), tr@) && pm_at(
                final(self).trees_spec(),
                tr@,
            ).relay_inv == new_value && pm_at(final(self).trees_spec(), tr@).src_inv == pm_at(
                old(self).trees_spec(),
                tr@,
            ).src_inv && pm_at(final(self).trees_spec(), tr@).merge_thrd == pm_at(
                old(self).trees_spec(),
                tr@,
            ).merge_thrd && pm_insert_rel(
                old(self).trees_spec(),
                final(self).trees_spec(),
                tr@,
                pm_at(final(self).trees_spec(), tr@),
            ),
    {
        let updated = match self.inner_list.get(tr) {
            Some(stat) => MlbtStat {
                src_inv: stat.src_inv,
                relay_inv: new_value,
                merge_thrd: stat.merge_thrd,
                src_inv_desc: clone_u64_map(&stat.src_inv_desc),
                relay_inv_desc: clone_u64_map(&stat.relay_inv_desc),
            },
            None => {
                return None;
            },
        };
        proof {
            let i = crate::peer_map::pm_idx(self.trees_spec(), tr@);
            assert(self.trees_spec()[i].1.wf());
        }
        self.inner_list.insert(tr, updated);
        proof {
            lemma_trees_wf_after_insert(old(self).trees_spec(), self.trees_spec(), tr@);
        }
        Some(())
    }

    /// Overwrite the src-interval observed for one child of a known source;
    /// `None` for an unknown source, which stays unknown.
    pub fn set_src_inv_desc(&mut self, tr: &Peer, query: &Peer, new_value: u64) -> (r: Option<()>)
        requires
            old(self).wf(),
        ensures
            final(self).wf(),
            final(self).neighbours_spec() == old(self).neighbours_spec(),
            r is Some <==> pm_has(old(self).trees_spec(), tr@),
            r is None ==> final(self).trees_spec() == old(self).trees_spec()
                && final(self).neighbours_spec() == old(self).neighbours_spec(),
            r is Some ==> pm_has(final(self).trees_spec(), tr@) && pm_has(
                pm_at(final(self).trees_spec(), tr@).src_inv_desc@,
                query@,
            ) && pm_at(pm_at(final(self).trees_spec(), tr@).src_inv_desc@, query@) == new_value
                && pm_insert_rel(
                old(self).trees_spec(),
                final(self).trees_spec(),
                tr@,
                pm_at(final(self).trees_spec(), tr@),
            ),
    {
        let updated = match self.inner_list.get(tr) {
            Some(stat) => {
                let mut desc = clone_u64_map(&stat.src_inv_desc);
                proof {
                    let i = crate::peer_map::pm_idx(self.trees_spec(), tr@);
                    assert(self.trees_spec()[i].1.wf());
                }
                desc.insert(query, new_value);
                MlbtStat {
                    src_inv: stat.src_inv,
                    relay_inv: stat.relay_inv,
                    merge_thrd: stat.merge_thrd,
                    src_inv_desc: desc,
                    relay_inv_desc: clone_u64_map(&stat.relay_inv_desc),
                }
            },
            None => {
                return None;
            },
        };
        self.inner_list.insert(tr, updated);
        proof {
            lemma_trees_wf_after_insert(old(self).trees_spec(), self.trees_spec(), tr@);
        }
        Some(())
    }

    /// Overwrite the relay-interval observed for one child of a known source;
    /// `None` for an unknown source, which stays unknown.
    pub fn set_relay_inv_desc(&mut self, tr: &Peer, query: &Peer, new_value: u64) -> (r: Option<
        (),
    >)
        requires
            old(self).wf(),
        ensures
            final(self).wf(),
            final(self).neighbours_spec() == old(self).neighbours_spec(),
            r is Some <==> pm_has(old(self).trees_spec(), tr@),
            r is None ==> final(self).trees_spec() == old(self).trees_spec()
                && final(self).neighbours_spec() == old(self).neighbours_spec(),
            r is Some ==> pm_has(final(self).trees_spec(), tr@) && pm_has(
                pm_at(final(self).trees_spec(), tr@).relay_inv_desc@,
                query@,
            ) && pm_at(pm_at(final(self).trees_spec(), tr@).relay_inv_desc@, query@) == new_value
                && pm_insert_rel(
                old(self).trees_spec(),
                final(self).trees_spec(),
                tr@,
                pm_at(final(self).trees_spec(), tr@),
            ),
    {
        let updated = match self.inner_list.get(tr) {
            Some(stat) => {
                let mut desc = clone_u64_map(&stat.relay_inv_desc);
                proof {
                    let i = crate::peer_map::pm_idx(self.trees_spec(), tr@);
                    assert(self.trees_spec()[i].1.wf());
                }
                desc.insert(query, new_value);
                MlbtStat {
                    src_inv: stat.src_inv,
                    relay_inv: stat.relay_inv,
                    merge_thrd: stat.merge_thrd,
                    src_inv_desc: clone_u64_map(&stat.src_inv_desc),
                    relay_inv_desc: desc,
                }
            },
            None => {
                return None;
            },
        };
        self.inner_list.insert(tr, updated);
        proof {
            lemma_trees_wf_after_insert(old(self).trees_spec(), self.trees_spec(), tr@);
        }
        Some(())
    }

    /// Record a known hop delay directly, creating the neighbour if need be.
    pub fn set_delay_ts(&mut self, query: &Peer, new_value: u64) -> (r: Option<()>)
        requires
            old(self).wf(),
        ensures
            final(self).wf(),
            final(self).trees_spec() == old(self).trees_spec(),
            r is Some,
            pm_has(final(self).neighbours_spec(), query@),
            pm_at(final(self).neighbours_spec(), query@).delay_ts == new_value,
            pm_insert_rel(
                old(self).neighbours_spec(),
                final(self).neighbours_spec(),
                query@,
                pm_at(final(self).neighbours_spec(), query@),
            ),
    {
        self.neighbour_list.insert(query, NeighbourStat { delay_ts: new_value });
        Some(())
    }
}

/// Copy a per-child interval table entry for entry.
fn clone_u64_map(m: &PeerMap<u64>) -> (r: PeerMap<u64>)
    requires
        pm_wf(m@),
    ensures
        r@ == m@,
{
    let ks = m.keys();
    let mut out: PeerMap<u64> = PeerMap::new();
    let mut i: usize = 0;
    proof {
        assert(out@ =~= m@.take(0));
    }
    while i < ks.len()
        invariant
            pm_wf(m@),
            pm_wf(out@),
            ks@.len() == m@.len(),
            forall|j: int| 0 <= j < ks@.len() ==> ks@[j]@ == m@[j].0,
            i <= ks@.len(),
            out@ == m@.take(i as int),
        decreases ks@.len() - i,
    {
        let v = match m.get(&ks[i]) {
            Some(v) => *v,
            None => 0,
        };
        proof {
            crate::peer_map::lemma_pm_at_unique(m@, m@[i as int].0, i as int);
            assert(!pm_has(out@, ks@[i as int]@)) by {
                assert forall|j: int| 0 <= j < out@.len() implies out@[j].0 != ks@[i as int]@ by {
                    assert(out@[j] == m@[j]);
                }
            }
        }
        out.insert(&ks[i], v);
        proof {
            assert(out@ =~= m@.take(i + 1));
        }
        i += 1;
    }
    proof {
        assert(m@.take(ks@.len() as int) =~= m@);
    }
    out
}

/// After one source's record is replaced, every record in the store is still
/// well formed.
proof fn lemma_trees_wf_after_insert(
    s: Seq<(Seq<u8>, MlbtStat)>,
    t: Seq<(Seq<u8>, MlbtStat)>,
    k: Seq<u8>,
)
    requires
        pm_wf(s),
        pm_wf(t),
        forall|i: int| 0 <= i < s.len() ==> (#[trigger] s[i].1).wf(),
        pm_has(t, k) && pm_at(t, k).wf(),
        pm_insert_rel(s, t, k, pm_at(t, k)),
    ensures
        forall|i: int| 0 <= i < t.len() ==> (#[trigger] t[i].1).wf(),
{
    assert forall|i: int| 0 <= i < t.len() implies (#[trigger] t[i].1).wf() by {
        if t[i] == (k, pm_at(t, k)) {
        } else {
            assert(pm_has(s, t[i].0) && pm_at(s, t[i].0) == t[i].1);
            let j = crate::peer_map::pm_idx(s, t[i].0);
            assert(s[j].1.wf());
        }
    }
}

} // verus!
