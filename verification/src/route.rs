//! The route table: per-source relay fan-out lists, the delegate (up-link)
//! per source, the next-hop table for unicast, and the link counters derived
//! from them.
//!
//! Invariants: the total link count never exceeds `MAX_LINK`; no source lists
//! a child twice; every map holds each key once. The count a getter reports
//! is always the sum of the relay lists' lengths.

use vstd::prelude::*;

use crate::identity::{
    Peer, clone_peers, contains_peer, id_index, ids_of, lemma_id_index_unique, peers_nodup,
};
use crate::peer_map::{PeerMap, pm_at, pm_has, pm_idx, pm_insert_rel, pm_remove_rel, pm_wf};

verus! {

/// The most (source, child) links one node will relay for.
pub const MAX_LINK: u32 = 128;

/// The total number of (source, child) links a relay table holds.
pub open spec fn relay_sum(s: Seq<(Seq<u8>, Vec<Peer>)>) -> int
    decreases s.len(),
{
    if s.len() == 0 {
        0
    } else {
        relay_sum(s.drop_last()) + s.last().1@.len()
    }
}

/// A relay table counts every link at least zero times.
pub proof fn lemma_relay_sum_nonneg(s: Seq<(Seq<u8>, Vec<Peer>)>)
    ensures
        relay_sum(s) >= 0,
    decreases s.len(),
{
    if s.len() > 0 {
        lemma_relay_sum_nonneg(s.drop_last());
    }
}

/// Appending a source's list adds exactly its length to the count.
pub proof fn lemma_relay_sum_push(s: Seq<(Seq<u8>, Vec<Peer>)>, e: (Seq<u8>, Vec<Peer>))
    ensures
        relay_sum(s.push(e)) == relay_sum(s) + e.1@.len(),
{
    assert(s.push(e).drop_last() =~= s);
    assert(s.push(e).last() == e);
}

/// Replacing a source's list changes the count by the difference of lengths.
pub proof fn lemma_relay_sum_update(s: Seq<(Seq<u8>, Vec<Peer>)>, i: int, e: (Seq<u8>, Vec<Peer>))
    requires
        0 <= i < s.len(),
    ensures
        relay_sum(s.update(i, e)) == relay_sum(s) - s[i].1@.len() + e.1@.len(),
    decreases s.len(),
{
    if i == s.len() - 1 {
        assert(s.update(i, e).drop_last() =~= s.drop_last());
        assert(s.update(i, e).last() == e);
    } else {
        assert(s.update(i, e).drop_last() =~= s.drop_last().update(i, e));
        assert(s.update(i, e).last() == s.last());
        lemma_relay_sum_update(s.drop_last(), i, e);
    }
}

/// Dropping a source's list subtracts exactly its length from the count.
pub proof fn lemma_relay_sum_remove(s: Seq<(Seq<u8>, Vec<Peer>)>, i: int)
    requires
        0 <= i < s.len(),
    ensures
        relay_sum(s.remove(i)) == relay_sum(s) - s[i].1@.len(),
    decreases s.len(),
{
    if i == s.len() - 1 {
        assert(s.remove(i) =~= s.drop_last());
    } else {
        assert(s.remove(i).drop_last() =~= s.drop_last().remove(i));
        assert(s.remove(i).last() == s.last());
        lemma_relay_sum_remove(s.drop_last(), i);
    }
}

/// A prefix one entry longer counts that entry's list too.
pub proof fn lemma_relay_sum_take_step(s: Seq<(Seq<u8>, Vec<Peer>)>, i: int)
    requires
        0 <= i < s.len(),
    ensures
        relay_sum(s.take(i + 1)) == relay_sum(s.take(i)) + s[i].1@.len(),
{
    assert(s.take(i + 1).drop_last() =~= s.take(i));
    assert(s.take(i + 1).last() == s[i]);
}

/// No source's list counts more links than the whole table.
pub proof fn lemma_relay_sum_entry(s: Seq<(Seq<u8>, Vec<Peer>)>, i: int)
    requires
        0 <= i < s.len(),
    ensures
        relay_sum(s) >= s[i].1@.len(),
    decreases s.len(),
{
    if i == s.len() - 1 {
        lemma_relay_sum_nonneg(s.drop_last());
    } else {
        lemma_relay_sum_entry(s.drop_last(), i);
    }
}

/// A prefix never counts more links than the whole table.
pub proof fn lemma_relay_sum_prefix_bound(s: Seq<(Seq<u8>, Vec<Peer>)>, i: int)
    requires
        0 <= i <= s.len(),
    ensures
        relay_sum(s.take(i)) <= relay_sum(s),
    decreases s.len() - i,
{
    if i == s.len() {
        assert(s.take(i) =~= s);
    } else {
        lemma_relay_sum_take_step(s, i);
        lemma_relay_sum_prefix_bound(s, i + 1);
    }
}

/// The table lists `child` under `src`.
pub open spec fn relay_has_child(s: Seq<(Seq<u8>, Vec<Peer>)>, src: Seq<u8>, child: Seq<u8>) -> bool {
    pm_has(s, src) && ids_of(pm_at(s, src)@).contains(child)
}

/// Application-layer route user interface, query only.
pub trait AppLayerRouteUser {
    type Host;

    /// The querying functions expect a structurally sound table.
    spec fn route_wf(&self) -> bool;

    fn get_delegate(&self, src: &Self::Host) -> Option<Self::Host>
        requires
            self.route_wf(),
    ;

    fn get_next_hop(&self, dst: &Self::Host) -> Option<Self::Host>
        requires
            self.route_wf(),
    ;

    fn get_relay(&self, src: &Self::Host) -> Vec<Self::Host>
        requires
            self.route_wf(),
    ;
}

/// Application-layer route manage interface: insert, delete and query.
pub trait AppLayerRouteInner: AppLayerRouteUser {
    fn insert_path(&mut self, dst: &Self::Host, next: &Self::Host)
        requires
            old(self).route_wf(),
        ensures
            final(self).route_wf(),
    ;

    fn remove_path(&mut self, dst: &Self::Host)
        requires
            old(self).route_wf(),
        ensures
            final(self).route_wf(),
    ;

    fn reg_delegate(&mut self, src: &Self::Host, del: &Self::Host)
        requires
            old(self).route_wf(),
        ensures
            final(self).route_wf(),
    ;

    fn insert_relay(&mut self, src: &Self::Host, to: &Self::Host)
        requires
            old(self).route_wf(),
        ensures
            final(self).route_wf(),
    ;

    fn remove_relay(&mut self, src: &Self::Host, to: &Self::Host)
        requires
            old(self).route_wf(),
        ensures
            final(self).route_wf(),
    ;

    fn get_relay_count(&self) -> u32
        requires
            self.route_wf(),
    ;

    fn get_relay_count_by_tree(&self, src: &Self::Host) -> u32
        requires
            self.route_wf(),
    ;
}

/// Per-node routing state: delegates, relay lists and next hops.
pub struct RouteTable {
    local_id: Peer,
    delegates: PeerMap<Peer>,
    relay_table: PeerMap<Vec<Peer>>,
    path_table: PeerMap<Peer>,
}

impl RouteTable {
    /// This node's identity.
    pub closed spec fn local_spec(&self) -> Seq<u8> {
        self.local_id@
    }

    /// The delegate (upstream parent) per source.
    pub closed spec fn del_spec(&self) -> Seq<(Seq<u8>, Peer)> {
        self.delegates@
    }

    /// The relay (children) list per source.
    pub closed spec fn relay_spec(&self) -> Seq<(Seq<u8>, Vec<Peer>)> {
        self.relay_table@
    }

    /// The next hop per unicast destination.
    pub closed spec fn path_spec(&self) -> Seq<(Seq<u8>, Peer)> {
        self.path_table@
    }

    /// Structural soundness: unique keys in every map, no duplicate child
    /// within a source's list, and the total link count within `MAX_LINK`.
    pub open spec fn wf(&self) -> bool {
        &&& pm_wf(self.del_spec())
        &&& pm_wf(self.relay_spec())
        &&& pm_wf(self.path_spec())
        &&& forall|i: int|
            0 <= i < self.relay_spec().len() ==> peers_nodup(
                (#[trigger] self.relay_spec()[i]).1@,
            )
        &&& relay_sum(self.relay_spec()) <= MAX_LINK
    }

    /// A fresh, empty table for this node.
    pub fn new(local: &Peer) -> (r: Self)
        ensures
            r.wf(),
            r.local_spec() == local@,
            r.del_spec().len() == 0,
            r.relay_spec().len() == 0,
            r.path_spec().len() == 0,
    {
        let r = Self {
            local_id: local.clone(),
            delegates: PeerMap::new(),
            relay_table: PeerMap::new(),
            path_table: PeerMap::new(),
        };
        r
    }

    /// This node's identity.
    pub fn local_id(&self) -> (r: Peer)
        ensures
            r@ == self.local_spec(),
    {
        self.local_id.clone()
    }

    /// The next hop toward `dst`, if one is registered.
    pub fn get_next_hop(&self, dst: &Peer) -> (r: Option<Peer>)
        requires
            self.wf(),
        ensures
            match r {
                Some(p) => pm_has(self.path_spec(), dst@) && pm_at(self.path_spec(), dst@)@ == p@,
                None => !pm_has(self.path_spec(), dst@),
            },
    {
        match self.path_table.get(dst) {
            Some(next) => Some(next.clone()),
            None => None,
        }
    }

    /// The children to relay `src`'s broadcasts to, in insertion order; empty
    /// for an unknown source.
    pub fn get_relay(&self, src: &Peer) -> (r: Vec<Peer>)
        requires
            self.wf(),
        ensures
            pm_has(self.relay_spec(), src@) ==> ids_of(r@) == ids_of(
                pm_at(self.relay_spec(), src@)@,
            ),
            !pm_has(self.relay_spec(), src@) ==> r@.len() == 0,
            peers_nodup(r@),
    {
        match self.relay_table.get(src) {
            Some(list) => {
                proof {
                    let i = pm_idx(self.relay_spec(), src@);
                    assert(peers_nodup(self.relay_spec()[i].1@));
                }
                let r = clone_peers(list);
                proof {
                    let stored = pm_at(self.relay_spec(), src@)@;
                    assert forall|a: int, b: int|
                        0 <= a < r@.len() && 0 <= b < r@.len() && a != b implies r@[a]@
                        != r@[b]@ by {
                        assert(ids_of(r@)[a] == r@[a]@);
                        assert(ids_of(r@)[b] == r@[b]@);
                        assert(ids_of(stored)[a] == stored[a]@);
                        assert(ids_of(stored)[b] == stored[b]@);
                    }
                }
                r
            },
            None => Vec::new(),
        }
    }

    /// The upstream delegate for `src`, if one is registered.
    pub fn get_delegate(&self, src: &Peer) -> (r: Option<Peer>)
        requires
            self.wf(),
        ensures
            match r {
                Some(p) => pm_has(self.del_spec(), src@) && pm_at(self.del_spec(), src@)@ == p@,
                None => !pm_has(self.del_spec(), src@),
            },
    {
        match self.delegates.get(src) {
            Some(del) => Some(del.clone()),
            None => None,
        }
    }

    /// How many sources this node has a delegate for.
    pub fn src_count(&self) -> (r: usize)
        ensures
            r == self.del_spec().len(),
    {
        self.delegates.len()
    }

    /// Every source this node has a delegate for, in registration order.
    pub fn get_src_list(&self) -> (r: Vec<Peer>)
        requires
            self.wf(),
        ensures
            r@.len() == self.del_spec().len(),
            forall|i: int| 0 <= i < r@.len() ==> r@[i]@ == self.del_spec()[i].0,
    {
        self.delegates.keys()
    }

    /// The best source to inject a broadcast at: the first source this node
    /// holds a delegate for, or none while the node is detached.
    pub fn get_best_src(&self) -> (r: Option<Peer>)
        requires
            self.wf(),
        ensures
            match r {
                Some(p) => self.del_spec().len() > 0 && p@ == self.del_spec()[0].0,
                None => self.del_spec().len() == 0,
            },
    {
        if self.delegates.len() > 0 {
            Some(self.delegates.key_at(0).clone())
        } else {
            None
        }
    }

    /// Register the next hop toward `dst`, overwriting a previous one.
    pub fn insert_path(&mut self, dst: &Peer, next: &Peer)
        requires
            old(self).wf(),
        ensures
            final(self).wf(),
            final(self).local_spec() == old(self).local_spec(),
            final(self).del_spec() == old(self).del_spec(),
            final(self).relay_spec() == old(self).relay_spec(),
            pm_has(final(self).path_spec(), dst@),
            pm_at(final(self).path_spec(), dst@)@ == next@,
            pm_insert_rel(
                old(self).path_spec(),
                final(self).path_spec(),
                dst@,
                pm_at(final(self).path_spec(), dst@),
            ),
    {
        self.path_table.insert(dst, next.clone());
    }

    /// Forget the next hop toward `dst`; unknown destinations change nothing.
    pub fn remove_path(&mut self, dst: &Peer)
        requires
            old(self).wf(),
        ensures
            final(self).wf(),
            final(self).local_spec() == old(self).local_spec(),
            final(self).del_spec() == old(self).del_spec(),
            final(self).relay_spec() == old(self).relay_spec(),
            pm_remove_rel(old(self).path_spec(), final(self).path_spec(), dst@),
    {
        let _ = self.path_table.remove(dst);
    }

    /// Register the delegate for `src`. A source keeps its first delegate: a
    /// conflicting registration changes nothing.
    pub fn reg_delegate(&mut self, src: &Peer, del: &Peer)
        requires
            old(self).wf(),
        ensures
            final(self).wf(),
            final(self).local_spec() == old(self).local_spec(),
            final(self).relay_spec() == old(self).relay_spec(),
            final(self).path_spec() == old(self).path_spec(),
            pm_has(old(self).del_spec(), src@) ==> final(self).del_spec() == old(self).del_spec(),
            !pm_has(old(self).del_spec(), src@) ==> final(self).del_spec().len() == old(
                self,
            ).del_spec().len() + 1 && pm_has(final(self).del_spec(), src@) && pm_at(
                final(self).del_spec(),
                src@,
            )@ == del@ && pm_insert_rel(
                old(self).del_spec(),
                final(self).del_spec(),
                src@,
                pm_at(final(self).del_spec(), src@),
            ),
    {
        if self.delegates.contains(src) {
            return ;
        }
        self.delegates.insert(src, del.clone());
        proof {
            assert(pm_at(final(self).del_spec(), src@)@ == del@);
        }
    }

    /// The total number of (source, child) links this node relays.
    pub fn get_relay_count(&self) -> (r: u32)
        requires
            self.wf(),
        ensures
            r == relay_sum(self.relay_spec()),
            r <= MAX_LINK,
    {
        let n = self.relay_table.len();
        let mut acc: u32 = 0;
        let mut i: usize = 0;
        proof {
            assert(self.relay_spec().take(0) =~= Seq::<(Seq<u8>, Vec<Peer>)>::empty());
        }
        while i < n
            invariant
                self.wf(),
                n == self.relay_spec().len(),
                i <= n,
                acc == relay_sum(self.relay_spec().take(i as int)),
                acc <= MAX_LINK,
            decreases n - i,
        {
            let list_len = self.relay_table.val_at(i).len();
            proof {
                lemma_relay_sum_take_step(self.relay_spec(), i as int);
                lemma_relay_sum_prefix_bound(self.relay_spec(), i + 1);
                lemma_relay_sum_nonneg(self.relay_spec().take(i as int));
            }
            acc = acc + (list_len as u32);
            i += 1;
        }
        proof {
            assert(self.relay_spec().take(n as int) =~= self.relay_spec());
        }
        acc
    }

    /// How many children this node relays to in one source's tree.
    pub fn get_relay_count_by_tree(&self, src: &Peer) -> (r: u32)
        requires
            self.wf(),
        ensures
            pm_has(self.relay_spec(), src@) ==> r == pm_at(self.relay_spec(), src@)@.len(),
            !pm_has(self.relay_spec(), src@) ==> r == 0,
    {
        match self.relay_table.get(src) {
            Some(list) => {
                proof {
                    lemma_relay_sum_entry(self.relay_spec(), pm_idx(self.relay_spec(), src@));
                }
                list.len() as u32
            },
            None => 0,
        }
    }

    /// Add `to` as a child for `src`'s tree, at the back of the list. The
    /// call changes nothing when the node is at its link budget or the child
    /// is already listed; otherwise the list grows by exactly that child and
    /// the link count by one.
    pub fn insert_relay(&mut self, src: &Peer, to: &Peer)
        requires
            old(self).wf(),
        ensures
            final(self).wf(),
            final(self).local_spec() == old(self).local_spec(),
            final(self).del_spec() == old(self).del_spec(),
            final(self).path_spec() == old(self).path_spec(),
            relay_sum(old(self).relay_spec()) >= MAX_LINK ==> final(self).relay_spec() == old(
                self,
            ).relay_spec(),
            relay_has_child(old(self).relay_spec(), src@, to@) ==> final(self).relay_spec() == old(
                self,
            ).relay_spec(),
            relay_sum(old(self).relay_spec()) < MAX_LINK && !relay_has_child(
                old(self).relay_spec(),
                src@,
                to@,
            ) ==> {
                &&& pm_has(final(self).relay_spec(), src@)
                &&& ids_of(pm_at(final(self).relay_spec(), src@)@) == (if pm_has(
                    old(self).relay_spec(),
                    src@,
                ) {
                    ids_of(pm_at(old(self).relay_spec(), src@)@)
                } else {
                    Seq::<Seq<u8>>::empty()
                }).push(to@)
                &&& pm_insert_rel(
                    old(self).relay_spec(),
                    final(self).relay_spec(),
                    src@,
                    pm_at(final(self).relay_spec(), src@),
                )
                &&& relay_sum(final(self).relay_spec()) == relay_sum(old(self).relay_spec()) + 1
            },
    {
        if self.get_relay_count() >= MAX_LINK {
            return ;
        }
        let list = match self.relay_table.get(src) {
            Some(l) => clone_peers(l),
            None => Vec::new(),
        };
        if contains_peer(&list, to) {
            proof {
                let i = pm_idx(self.relay_spec(), src@);
            }
            return ;
        }
        let ghost s0 = self.relay_spec();
        let ghost old_ids = ids_of(list@);
        let mut list = list;
        list.push(to.clone());
        proof {
            assert(ids_of(list@) =~= old_ids.push(to@));
            assert forall|a: int, b: int|
                0 <= a < list@.len() && 0 <= b < list@.len() && a != b implies list@[a]@
                != list@[b]@ by {
                assert(ids_of(list@)[a] == list@[a]@);
                assert(ids_of(list@)[b] == list@[b]@);
                let m = list@.len() - 1;
                if a < m && b < m {
                    assert(old_ids[a] != old_ids[b]) by {
                        if pm_has(s0, src@) {
                            let i = pm_idx(s0, src@);
                            assert(peers_nodup(s0[i].1@));
                            assert(ids_of(s0[i].1@)[a] == s0[i].1@[a]@);
                            assert(ids_of(s0[i].1@)[b] == s0[i].1@[b]@);
                        }
                    }
                } else if a < m {
                    assert(old_ids[a] == ids_of(list@)[a]);
                    assert(old_ids.contains(old_ids[a]) == false ==> false);
                    assert(ids_of(list@)[b] == to@);
                    assert(old_ids[a] != to@) by {
                        if old_ids[a] == to@ {
                            assert(old_ids.contains(to@));
                        }
                    }
                } else if b < m {
                    assert(ids_of(list@)[a] == to@);
                    assert(old_ids[b] != to@) by {
                        if old_ids[b] == to@ {
                            assert(old_ids.contains(to@));
                        }
                    }
                }
            }
            assert(peers_nodup(list@));
        }
        let ghost new_list = list;
        self.relay_table.insert(src, list);
        proof {
            let t = self.relay_spec();
            if pm_has(s0, src@) {
                let i = pm_idx(s0, src@);
                assert(t == s0.update(i, (src@, new_list)));
                lemma_relay_sum_update(s0, i, (src@, new_list));
                assert(new_list@.len() == s0[i].1@.len() + 1);
                assert forall|j: int| 0 <= j < t.len() implies peers_nodup(
                    (#[trigger] t[j]).1@,
                ) by {
                    if j != i {
                        assert(t[j] == s0[j]);
                    }
                }
            } else {
                assert(t == s0.push((src@, new_list)));
                lemma_relay_sum_push(s0, (src@, new_list));
                assert forall|j: int| 0 <= j < t.len() implies peers_nodup(
                    (#[trigger] t[j]).1@,
                ) by {
                    if j < s0.len() {
                        assert(t[j] == s0[j]);
                    }
                }
            }
        }
    }

    /// Add `to` as a child for `src`'s tree, at the front of the list: used
    /// by a merge when this node becomes the new root. The same budget and
    /// duplicate rules hold as for `insert_relay`.
    pub fn insert_front_relay(&mut self, src: &Peer, to: &Peer)
        requires
            old(self).wf(),
        ensures
            final(self).wf(),
            final(self).local_spec() == old(self).local_spec(),
            final(self).del_spec() == old(self).del_spec(),
            final(self).path_spec() == old(self).path_spec(),
            relay_sum(old(self).relay_spec()) >= MAX_LINK ==> final(self).relay_spec() == old(
                self,
            ).relay_spec(),
            relay_has_child(old(self).relay_spec(), src@, to@) ==> final(self).relay_spec() == old(
                self,
            ).relay_spec(),
            relay_sum(old(self).relay_spec()) < MAX_LINK && !relay_has_child(
                old(self).relay_spec(),
                src@,
                to@,
            ) ==> {
                &&& pm_has(final(self).relay_spec(), src@)
                &&& ids_of(pm_at(final(self).relay_spec(), src@)@) == seq![to@] + (if pm_has(
                    old(self).relay_spec(),
                    src@,
                ) {
                    ids_of(pm_at(old(self).relay_spec(), src@)@)
                } else {
                    Seq::<Seq<u8>>::empty()
                })
                &&& pm_insert_rel(
                    old(self).relay_spec(),
                    final(self).relay_spec(),
                    src@,
                    pm_at(final(self).relay_spec(), src@),
                )
                &&& relay_sum(final(self).relay_spec()) == relay_sum(old(self).relay_spec()) + 1
            },
    {
        if self.get_relay_count() >= MAX_LINK {
            return ;
        }
        let tail = match self.relay_table.get(src) {
            Some(l) => clone_peers(l),
            None => Vec::new(),
        };
        if contains_peer(&tail, to) {
            proof {
                let i = pm_idx(self.relay_spec(), src@);
            }
            return ;
        }
        let ghost s0 = self.relay_spec();
        let ghost tail_ids = ids_of(tail@);
        let mut list: Vec<Peer> = Vec::new();
        list.push(to.clone());
        let mut tail = tail;
        list.append(&mut tail);
        proof {
            assert(ids_of(list@) =~= seq![to@] + tail_ids);
            assert forall|a: int, b: int|
                0 <= a < list@.len() && 0 <= b < list@.len() && a != b implies list@[a]@
                != list@[b]@ by {
                assert(ids_of(list@)[a] == list@[a]@);
                assert(ids_of(list@)[b] == list@[b]@);
                if a >= 1 && b >= 1 {
                    assert(tail_ids[a - 1] != tail_ids[b - 1]) by {
                        if pm_has(s0, src@) {
                            let i = pm_idx(s0, src@);
                            assert(peers_nodup(s0[i].1@));
                            assert(ids_of(s0[i].1@)[a - 1] == s0[i].1@[a - 1]@);
                            assert(ids_of(s0[i].1@)[b - 1] == s0[i].1@[b - 1]@);
                        }
                    }
                } else if a >= 1 {
                    assert(ids_of(list@)[b] == to@);
                    assert(tail_ids[a - 1] != to@) by {
                        if tail_ids[a - 1] == to@ {
                            assert(tail_ids.contains(to@));
                        }
                    }
                } else if b >= 1 {
                    assert(ids_of(list@)[a] == to@);
                    assert(tail_ids[b - 1] != to@) by {
                        if tail_ids[b - 1] == to@ {
                            assert(tail_ids.contains(to@));
                        }
                    }
                }
            }
            assert(peers_nodup(list@));
        }
        let ghost new_list = list;
        self.relay_table.insert(src, list);
        proof {
            let t = self.relay_spec();
            if pm_has(s0, src@) {
                let i = pm_idx(s0, src@);
                assert(t == s0.update(i, (src@, new_list)));
                lemma_relay_sum_update(s0, i, (src@, new_list));
                assert(new_list@.len() == s0[i].1@.len() + 1);
                assert forall|j: int| 0 <= j < t.len() implies peers_nodup(
                    (#[trigger] t[j]).1@,
                ) by {
                    if j != i {
                        assert(t[j] == s0[j]);
                    }
                }
            } else {
                assert(t == s0.push((src@, new_list)));
                lemma_relay_sum_push(s0, (src@, new_list));
                assert forall|j: int| 0 <= j < t.len() implies peers_nodup(
                    (#[trigger] t[j]).1@,
                ) by {
                    if j < s0.len() {
                        assert(t[j] == s0[j]);
                    }
                }
            }
        }
    }

    /// Drop `to` from `src`'s children. A child not listed changes nothing;
    /// a listed one leaves the rest of the list in order and lowers the link
    /// count by one.
    pub fn remove_relay(&mut self, src: &Peer, to: &Peer)
        requires
            old(self).wf(),
        ensures
            final(self).wf(),
            final(self).local_spec() == old(self).local_spec(),
            final(self).del_spec() == old(self).del_spec(),
            final(self).path_spec() == old(self).path_spec(),
            !relay_has_child(old(self).relay_spec(), src@, to@) ==> final(self).relay_spec()
                == old(self).relay_spec(),
            relay_has_child(old(self).relay_spec(), src@, to@) ==> {
                let old_ids = ids_of(pm_at(old(self).relay_spec(), src@)@);
                &&& pm_has(final(self).relay_spec(), src@)
                &&& ids_of(pm_at(final(self).relay_spec(), src@)@) == old_ids.remove(
                    id_index(old_ids, to@),
                )
                &&& pm_insert_rel(
                    old(self).relay_spec(),
                    final(self).relay_spec(),
                    src@,
                    pm_at(final(self).relay_spec(), src@),
                )
                &&& relay_sum(final(self).relay_spec()) == relay_sum(old(self).relay_spec()) - 1
            },
    {
        let list = match self.relay_table.get(src) {
            Some(l) => clone_peers(l),
            None => {
                return ;
            },
        };
        let ghost s0 = self.relay_spec();
        let ghost i0 = pm_idx(s0, src@);
        proof {
            assert(peers_nodup(s0[i0].1@));
            assert forall|a: int, b: int|
                0 <= a < list@.len() && 0 <= b < list@.len() && a != b implies list@[a]@
                != list@[b]@ by {
                assert(ids_of(list@)[a] == list@[a]@);
                assert(ids_of(list@)[b] == list@[b]@);
                assert(ids_of(s0[i0].1@)[a] == s0[i0].1@[a]@);
                assert(ids_of(s0[i0].1@)[b] == s0[i0].1@[b]@);
            }
        }
        let n = list.len();
        let mut out: Vec<Peer> = Vec::new();
        let mut found: bool = false;
        let ghost mut fidx: int = 0;
        let mut i: usize = 0;
        while i < n
            invariant
                n == list@.len(),
                i <= n,
                peers_nodup(list@),
                !found ==> out@.len() == i && ids_of(out@) == ids_of(list@).take(i as int) && (
                forall|j: int| 0 <= j < i ==> list@[j]@ != to@),
                found ==> 0 <= fidx < i && list@[fidx]@ == to@ && ids_of(out@) == ids_of(
                    list@,
                ).take(i as int).remove(fidx),
            decreases n - i,
        {
            if list[i] == *to {
                proof {
                    assert(list@[i as int]@ == to@);
                    assert(!found) by {
                        if found {
                            assert(list@[fidx]@ != list@[i as int]@);
                        }
                    }
                    assert(ids_of(list@).take(i as int + 1).remove(i as int) =~= ids_of(
                        list@,
                    ).take(i as int));
                    fidx = i as int;
                }
                found = true;
            } else {
                let ghost out0 = out@;
                let p = list[i].clone();
                out.push(p);
                proof {
                    assert(ids_of(out@) =~= ids_of(out0).push(list@[i as int]@));
                    if found {
                        let lhs = ids_of(list@).take(i as int + 1).remove(fidx);
                        let rhs = ids_of(out0).push(list@[i as int]@);
                        assert forall|j: int| 0 <= j < lhs.len() implies lhs[j] == rhs[j] by {
                            if j < rhs.len() - 1 {
                                assert(rhs[j] == ids_of(out0)[j]);
                                assert(ids_of(out0)[j] == ids_of(list@).take(i as int).remove(
                                    fidx,
                                )[j]);
                            }
                        }
                        assert(lhs =~= rhs);
                    } else {
                        assert(ids_of(out@) =~= ids_of(list@).take(i as int + 1));
                    }
                }
            }
            i += 1;
        }
        proof {
            assert(ids_of(list@).take(n as int) =~= ids_of(list@));
        }
        if !found {
            proof {
                assert(!relay_has_child(s0, src@, to@)) by {
                    if ids_of(pm_at(s0, src@)@).contains(to@) {
                        let j = choose|j: int|
                            0 <= j < s0[i0].1@.len() && ids_of(s0[i0].1@)[j] == to@;
                        assert(ids_of(list@)[j] == to@);
                        assert(list@[j]@ == to@);
                    }
                }
            }
            return ;
        }
        proof {
            lemma_id_index_unique(list@, to@, fidx);
            assert(relay_has_child(s0, src@, to@)) by {
                assert(ids_of(s0[i0].1@)[fidx] == s0[i0].1@[fidx]@);
                assert(s0[i0].1@[fidx]@ == to@);
            }
            assert(peers_nodup(out@)) by {
                assert forall|a: int, b: int|
                    0 <= a < out@.len() && 0 <= b < out@.len() && a != b implies out@[a]@
                    != out@[b]@ by {
                    assert(ids_of(out@)[a] == out@[a]@);
                    assert(ids_of(out@)[b] == out@[b]@);
                    let full = ids_of(list@);
                    let ia: int = if a < fidx {
                        a
                    } else {
                        a + 1
                    };
                    let ib: int = if b < fidx {
                        b
                    } else {
                        b + 1
                    };
                    assert(ids_of(out@)[a] == full[ia]);
                    assert(ids_of(out@)[b] == full[ib]);
                    assert(list@[ia]@ != list@[ib]@);
                }
            }
        }
        let ghost new_list = out;
        self.relay_table.insert(src, out);
        proof {
            let t = self.relay_spec();
            crate::peer_map::lemma_pm_at_unique(s0, src@, i0);
            assert(t == s0.update(i0, (src@, new_list)));
            lemma_relay_sum_update(s0, i0, (src@, new_list));
            assert(new_list@.len() == s0[i0].1@.len() - 1);
            lemma_relay_sum_nonneg(s0);
            assert forall|j: int| 0 <= j < t.len() implies peers_nodup((#[trigger] t[j]).1@) by {
                if j != i0 {
                    assert(t[j] == s0[j]);
                }
            }
            assert(ids_of(pm_at(t, src@)@) == ids_of(pm_at(s0, src@)@).remove(
                id_index(ids_of(pm_at(s0, src@)@), to@),
            )) by {
                assert(ids_of(list@) =~= ids_of(pm_at(s0, src@)@));
                assert(id_index(ids_of(pm_at(s0, src@)@), to@) == fidx) by {
                    let x = id_index(ids_of(pm_at(s0, src@)@), to@);
                    if x != fidx {
                        assert(ids_of(pm_at(s0, src@)@)[x] == to@);
                        assert(s0[i0].1@[x]@ == to@);
                        assert(list@[x]@ == to@);
                        assert(list@[x]@ != list@[fidx]@);
                    }
                }
                assert(ids_of(new_list@) =~= ids_of(pm_at(s0, src@)@).remove(fidx));
            }
        }
    }
}

impl AppLayerRouteUser for RouteTable {
    type Host = Peer;

    open spec fn route_wf(&self) -> bool {
        self.wf()
    }

    fn get_delegate(&self, src: &Peer) -> Option<Peer> {
        RouteTable::get_delegate(self, src)
    }

    fn get_next_hop(&self, dst: &Peer) -> Option<Peer> {
        RouteTable::get_next_hop(self, dst)
    }

    fn get_relay(&self, src: &Peer) -> Vec<Peer> {
        RouteTable::get_relay(self, src)
    }
}

impl AppLayerRouteInner for RouteTable {
    fn insert_path(&mut self, dst: &Peer, next: &Peer) {
        RouteTable::insert_path(self, dst, next)
    }

    fn remove_path(&mut self, dst: &Peer) {
        RouteTable::remove_path(self, dst)
    }

    fn reg_delegate(&mut self, src: &Peer, del: &Peer) {
        RouteTable::reg_delegate(self, src, del)
    }

    fn insert_relay(&mut self, src: &Peer, to: &Peer) {
        RouteTable::insert_relay(self, src, to)
    }

    fn remove_relay(&mut self, src: &Peer, to: &Peer) {
        RouteTable::remove_relay(self, src, to)
    }

    fn get_relay_count(&self) -> u32 {
        RouteTable::get_relay_count(self)
    }

    fn get_relay_count_by_tree(&self, src: &Peer) -> u32 {
        RouteTable::get_relay_count_by_tree(self, src)
    }
}

/// The wrapped route replies correspond one for one, in order, to the
/// control plane's output: each is a ROUTE message with no relay flag and
/// zero fanout and TTL, placeholder source and upstream for the engine to
/// fill, addressed to that reply's peer and carrying that reply's bytes.
pub open spec fn route_replies_correspond(
    out: Seq<crate::message::OverlayMessage>,
    ctl: Seq<(Peer, Vec<u8>)>,
) -> bool {
    &&& out.len() == ctl.len()
    &&& (forall|i: int|
        0 <= i < out.len() ==> {
            let h = (#[trigger] out[i])@.header;
            &&& crate::msg_header::spec_msg_type(h) == crate::msg_header::spec_msg_type_num(
                crate::msg_header::MsgTypeKind::ROUTE_MSG,
            )
            &&& !crate::msg_header::spec_relay_flag(h)
            &&& crate::msg_header::spec_fan_out(h) == 0
            &&& crate::msg_header::spec_ttl(h) == 0
            &&& out[i]@.src == Peer::broadcast_id_spec()
            &&& out[i]@.from == Peer::broadcast_id_spec()
            &&& out[i]@.dst == ctl[i].0@
            &&& out[i]@.payload == ctl[i].1@
        })
}

/// The route module an engine drives: the table, the relay-control plane
/// over it, and the transport measurements.
pub struct Route<R: crate::route_ctl::RelayCtl> {
    route_table: RouteTable,
    relay_mod: R,
    netstat: crate::measure::NetStat,
}

impl<R: crate::route_ctl::RelayCtl> Route<R> {
    /// The route table.
    pub closed spec fn table(&self) -> RouteTable {
        self.route_table
    }

    /// The relay-control plane.
    pub closed spec fn ctl(&self) -> R {
        self.relay_mod
    }

    /// The measurement store.
    pub closed spec fn net(&self) -> crate::measure::NetStat {
        self.netstat
    }

    /// Table, plane and measurements are all structurally sound.
    pub open spec fn wf(&self) -> bool {
        self.table().wf() && self.ctl().ctl_wf() && self.net().wf()
    }

    /// A fresh route module for this node.
    pub fn new(local: &Peer) -> (r: Self)
        ensures
            r.wf(),
            r.table().local_spec() == local@,
    {
        let route_table = RouteTable::new(local);
        let relay_mod = R::new(&route_table);
        Self { route_table, relay_mod, netstat: crate::measure::NetStat::new() }
    }

    /// Hand one inbound relay-control message to the plane, and wrap each of
    /// its replies as a ROUTE message for the engine to send: one reply per
    /// control message the plane emitted, in the plane's order, each with
    /// route type, no relay flag, zero fanout and TTL, placeholder source
    /// and upstream (the engine fills them), addressed to the reply's peer
    /// and carrying its bytes.
    pub fn handle_route_message(&mut self, msg: &crate::message::OverlayMessage) -> (r: Vec<
        crate::message::OverlayMessage,
    >)
        requires
            old(self).wf(),
            old(self).ctl().ctl_can_step(),
        ensures
            final(self).wf(),
            final(self).net() == old(self).net(),
            exists|ctl: Seq<(Peer, Vec<u8>)>|
                #![trigger route_replies_correspond(r@, ctl)]
                R::callback_spec(
                    old(self).ctl(),
                    old(self).table(),
                    msg@.from,
                    msg@.payload,
                    final(self).ctl(),
                    final(self).table(),
                    ctl,
                ) && route_replies_correspond(r@, ctl),
    {
        let from = msg.from();
        let payload = msg.payload();
        let ctl_msgs = self.relay_mod.relay_ctl_callback(
            &mut self.route_table,
            &from,
            payload.as_slice(),
        );
        let ghost ctl = ctl_msgs@;
        let out = pack_route_messages(ctl_msgs);
        proof {
            assert(route_replies_correspond(out@, ctl));
        }
        out
    }

    /// Run one heartbeat of the plane and wrap its messages the same way:
    /// one ROUTE message per control message of the heartbeat's batch, in
    /// its order.
    pub fn invoke_heartbeat(&mut self) -> (r: Vec<crate::message::OverlayMessage>)
        requires
            old(self).wf(),
            old(self).ctl().ctl_can_heartbeat(&old(self).table()),
        ensures
            final(self).wf(),
            final(self).net() == old(self).net(),
            final(self).table() == old(self).table(),
            exists|ctl: Seq<(Peer, Vec<u8>)>|
                #![trigger route_replies_correspond(r@, ctl)]
                R::heartbeat_spec(old(self).ctl(), old(self).table(), final(self).ctl(), ctl)
                    && route_replies_correspond(r@, ctl),
    {
        let ctl_msgs = self.relay_mod.heartbeat(&mut self.route_table);
        let ghost ctl = ctl_msgs@;
        let out = pack_route_messages(ctl_msgs);
        proof {
            assert(route_replies_correspond(out@, ctl));
        }
        out
    }

    /// Word to the plane that a relay round finished.
    pub fn relay_receipt(&mut self, all_success: bool)
        requires
            old(self).wf(),
        ensures
            final(self).wf(),
            final(self).net() == old(self).net(),
    {
        self.relay_mod.relay_receipt(&mut self.route_table, all_success);
    }

    /// This node's identity.
    pub fn local_id(&self) -> (r: Peer)
        ensures
            r@ == self.table().local_spec(),
    {
        self.route_table.local_id()
    }

    /// Every source this node has a delegate for.
    pub fn get_src_list(&self) -> (r: Vec<Peer>)
        requires
            self.wf(),
        ensures
            r@.len() == self.table().del_spec().len(),
    {
        self.route_table.get_src_list()
    }

    /// The best source to inject a broadcast at.
    pub fn get_best_src(&self) -> (r: Option<Peer>)
        requires
            self.wf(),
        ensures
            r is Some <==> self.table().del_spec().len() > 0,
    {
        self.route_table.get_best_src()
    }

    /// The last observed hop latency to a peer.
    pub fn latency(&self, to: &Peer) -> (r: Option<u64>)
        requires
            self.wf(),
        ensures
            r is Some ==> crate::peer_map::pm_has(self.net()@, to@),
    {
        self.netstat.latency(to)
    }

    /// The last observed bandwidth to a peer.
    pub fn bandwidth(&self, to: &Peer) -> (r: Option<u64>)
        requires
            self.wf(),
        ensures
            r is Some ==> crate::peer_map::pm_has(self.net()@, to@),
    {
        self.netstat.bandwidth(to)
    }

    /// Whether the plane can take one more inbound message.
    pub fn can_step(&self) -> (r: bool)
        ensures
            r == self.ctl().ctl_can_step(),
    {
        self.relay_mod.can_step()
    }

    /// Whether the plane can run one heartbeat now.
    pub fn can_heartbeat(&self) -> (r: bool)
        ensures
            r == self.ctl().ctl_can_heartbeat(&self.table()),
    {
        self.relay_mod.can_heartbeat(&self.route_table)
    }

    /// The route table, read-only.
    pub fn table_ref(&self) -> (r: &RouteTable)
        ensures
            *r == self.table(),
    {
        &self.route_table
    }

    /// The measurement store, for the probe and for tests.
    pub fn netstat_mut(&mut self) -> (r: &mut crate::measure::NetStat)
        ensures
            *r == old(self).net(),
            final(self).net() == *final(r),
            final(self).table() == old(self).table(),
            final(self).ctl() == old(self).ctl(),
    {
        &mut self.netstat
    }
}


impl<R: crate::route_ctl::RelayCtl> AppLayerRouteUser for Route<R> {
    type Host = Peer;

    open spec fn route_wf(&self) -> bool {
        self.wf()
    }

    fn get_delegate(&self, src: &Peer) -> Option<Peer> {
        self.route_table.get_delegate(src)
    }

    fn get_next_hop(&self, dst: &Peer) -> Option<Peer> {
        self.route_table.get_next_hop(dst)
    }

    fn get_relay(&self, src: &Peer) -> Vec<Peer> {
        self.route_table.get_relay(src)
    }
}

impl<R: crate::route_ctl::RelayCtl> AppLayerRouteInner for Route<R> {
    fn insert_path(&mut self, dst: &Peer, next: &Peer) {
        self.route_table.insert_path(dst, next)
    }

    fn remove_path(&mut self, dst: &Peer) {
        self.route_table.remove_path(dst)
    }

    fn reg_delegate(&mut self, src: &Peer, del: &Peer) {
        self.route_table.reg_delegate(src, del)
    }

    fn insert_relay(&mut self, src: &Peer, to: &Peer) {
        self.route_table.insert_relay(src, to)
    }

    fn remove_relay(&mut self, src: &Peer, to: &Peer) {
        self.route_table.remove_relay(src, to)
    }

    fn get_relay_count(&self) -> u32 {
        self.route_table.get_relay_count()
    }

    fn get_relay_count_by_tree(&self, src: &Peer) -> u32 {
        self.route_table.get_relay_count_by_tree(src)
    }
}

/// Wrap a batch of relay-control payloads as ROUTE messages: the engine
/// fills source and upstream before sending, so both start as the broadcast
/// placeholder.
fn pack_route_messages(ctl_msgs: Vec<(Peer, Vec<u8>)>) -> (r: Vec<crate::message::OverlayMessage>)
    ensures
        r@.len() == ctl_msgs@.len(),
        forall|i: int|
            0 <= i < r@.len() ==> {
                let h = (#[trigger] r@[i])@.header;
                &&& crate::msg_header::spec_msg_type(h) == crate::msg_header::spec_msg_type_num(
                    crate::msg_header::MsgTypeKind::ROUTE_MSG,
                )
                &&& !crate::msg_header::spec_relay_flag(h)
                &&& crate::msg_header::spec_fan_out(h) == 0
                &&& crate::msg_header::spec_ttl(h) == 0
                &&& r@[i]@.src == Peer::broadcast_id_spec()
                &&& r@[i]@.from == Peer::broadcast_id_spec()
                &&& r@[i]@.dst == ctl_msgs@[i].0@
                &&& r@[i]@.payload == ctl_msgs@[i].1@
            },
{
    let mut out: Vec<crate::message::OverlayMessage> = Vec::new();
    let header = match crate::msg_header::MsgHeader::build(
        crate::msg_header::MsgTypeKind::ROUTE_MSG,
        false,
        crate::msg_header::RelayMethodKind::LOOKUP_TABLE_1,
        0,
        0,
    ) {
        Some(h) => h,
        None => {
            return out;
        },
    };
    let broadcast = Peer::broadcast_id();
    let n = ctl_msgs.len();
    let mut i: usize = 0;
    while i < n
        invariant
            n == ctl_msgs@.len(),
            i <= n,
            out@.len() == i,
            broadcast@ == Peer::broadcast_id_spec(),
            crate::msg_header::spec_msg_type(header) == crate::msg_header::spec_msg_type_num(
                crate::msg_header::MsgTypeKind::ROUTE_MSG,
            ),
            !crate::msg_header::spec_relay_flag(header),
            crate::msg_header::spec_fan_out(header) == 0,
            crate::msg_header::spec_ttl(header) == 0,
            forall|j: int|
                0 <= j < i ==> {
                    let h = (#[trigger] out@[j])@.header;
                    &&& crate::msg_header::spec_msg_type(h)
                        == crate::msg_header::spec_msg_type_num(
                        crate::msg_header::MsgTypeKind::ROUTE_MSG,
                    )
                    &&& !crate::msg_header::spec_relay_flag(h)
                    &&& crate::msg_header::spec_fan_out(h) == 0
                    &&& crate::msg_header::spec_ttl(h) == 0
                    &&& out@[j]@.src == Peer::broadcast_id_spec()
                    &&& out@[j]@.from == Peer::broadcast_id_spec()
                    &&& out@[j]@.dst == ctl_msgs@[j].0@
                    &&& out@[j]@.payload == ctl_msgs@[j].1@
                },
        decreases n - i,
    {
        let m = crate::message::OverlayMessage::new(
            header,
            &broadcast,
            &broadcast,
            &ctl_msgs[i].0,
            ctl_msgs[i].1.as_slice(),
        );
        out.push(m);
        i += 1;
    }
    out
}

} // verus!
