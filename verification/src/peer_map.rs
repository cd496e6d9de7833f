//! A map keyed by peer identity, held as an association vector.
//!
//! Per-source state all through the crate — relay lists, delegates, next
//! hops, statistics, protocol terms, wait slots — is keyed by a peer id.
//! Keys are unique; the value type is free.

use vstd::prelude::*;

use vstd::pervasive::VecAdditionalExecFns;

use crate::identity::Peer;

verus! {

/// The entries of a peer map: pairs of a peer id and a value.
pub open spec fn pm_entries<V>(p: Seq<(Peer, V)>) -> Seq<(Seq<u8>, V)> {
    Seq::new(p.len(), |i: int| (p[i].0@, p[i].1))
}

/// No two entries share a key.
pub open spec fn pm_wf<V>(s: Seq<(Seq<u8>, V)>) -> bool {
    forall|i: int, j: int| 0 <= i < s.len() && 0 <= j < s.len() && i != j ==> s[i].0 != s[j].0
}

/// Some entry carries this key.
pub open spec fn pm_has<V>(s: Seq<(Seq<u8>, V)>, k: Seq<u8>) -> bool {
    exists|i: int| 0 <= i < s.len() && s[i].0 == k
}

/// The index of the entry carrying this key.
pub open spec fn pm_idx<V>(s: Seq<(Seq<u8>, V)>, k: Seq<u8>) -> int {
    choose|i: int| 0 <= i < s.len() && s[i].0 == k
}

/// The value the entry carrying this key holds.
pub open spec fn pm_at<V>(s: Seq<(Seq<u8>, V)>, k: Seq<u8>) -> V {
    s[pm_idx(s, k)].1
}

/// Every entry of `s` with a key other than `k` stands in `t` unchanged, and
/// every entry of `t` is either `(k, v)` or such a kept entry.
pub open spec fn pm_insert_rel<V>(s: Seq<(Seq<u8>, V)>, t: Seq<(Seq<u8>, V)>, k: Seq<u8>, v: V) -> bool {
    &&& pm_has(t, k)
    &&& pm_at(t, k) == v
    &&& (forall|i: int|
        0 <= i < s.len() && s[i].0 != k ==> pm_has(t, s[i].0) && pm_at(t, s[i].0) == s[i].1)
    &&& (forall|j: int|
        0 <= j < t.len() ==> t[j] == (k, v) || (t[j].0 != k && pm_has(s, t[j].0) && pm_at(
            s,
            t[j].0,
        ) == t[j].1))
}

/// Every entry of `s` with a key other than `k` stands in `t` unchanged, and
/// nothing else does.
pub open spec fn pm_remove_rel<V>(s: Seq<(Seq<u8>, V)>, t: Seq<(Seq<u8>, V)>, k: Seq<u8>) -> bool {
    &&& !pm_has(t, k)
    &&& (forall|i: int|
        0 <= i < s.len() && s[i].0 != k ==> pm_has(t, s[i].0) && pm_at(t, s[i].0) == s[i].1)
    &&& (forall|j: int|
        0 <= j < t.len() ==> t[j].0 != k && pm_has(s, t[j].0) && pm_at(s, t[j].0) == t[j].1)
}

/// In a well-formed sequence, every entry whose key is `k` is the entry that
/// `pm_idx` names.
pub proof fn lemma_pm_at_unique<V>(s: Seq<(Seq<u8>, V)>, k: Seq<u8>, i: int)
    requires
        pm_wf(s),
        0 <= i < s.len(),
        s[i].0 == k,
    ensures
        pm_has(s, k),
        pm_idx(s, k) == i,
        pm_at(s, k) == s[i].1,
{
    let j = pm_idx(s, k);
    if j != i {
        assert(s[i].0 != s[j].0);
    }
}

/// A map from peer ids to values, with unique keys.
#[derive(Debug)]
pub struct PeerMap<V> {
    entries: Vec<(Peer, V)>,
}

impl<V> View for PeerMap<V> {
    type V = Seq<(Seq<u8>, V)>;

    closed spec fn view(&self) -> Seq<(Seq<u8>, V)> {
        pm_entries(self.entries@)
    }
}

impl<V> PeerMap<V> {
    /// An empty map.
    pub fn new() -> (r: Self)
        ensures
            r@.len() == 0,
            pm_wf(r@),
    {
        Self { entries: Vec::new() }
    }

    /// How many keys the map holds.
    pub fn len(&self) -> (r: usize)
        ensures
            r == self@.len(),
    {
        self.entries.len()
    }

    /// Whether the map knows this key.
    pub fn contains(&self, k: &Peer) -> (r: bool)
        ensures
            r == pm_has(self@, k@),
    {
        let n = self.entries.len();
        let mut i: usize = 0;
        while i < n
            invariant
                n == self@.len(),
                i <= n,
                forall|j: int| 0 <= j < i ==> self@[j].0 != k@,
            decreases n - i,
        {
            if self.entries[i].0 == *k {
                proof {
                    assert(self@[i as int].0 == k@);
                }
                return true;
            }
            i += 1;
        }
        false
    }

    /// The value under this key, if the map knows it.
    pub fn get(&self, k: &Peer) -> (r: Option<&V>)
        requires
            pm_wf(self@),
        ensures
            match r {
                Some(v) => pm_has(self@, k@) && pm_at(self@, k@) == *v,
                None => !pm_has(self@, k@),
            },
    {
        let n = self.entries.len();
        let mut i: usize = 0;
        while i < n
            invariant
                pm_wf(self@),
                n == self@.len(),
                i <= n,
                forall|j: int| 0 <= j < i ==> self@[j].0 != k@,
            decreases n - i,
        {
            if self.entries[i].0 == *k {
                proof {
                    assert(self@[i as int].0 == k@);
                    lemma_pm_at_unique(self@, k@, i as int);
                }
                return Some(&self.entries[i].1);
            }
            i += 1;
        }
        None
    }

    /// Put `(k, v)` in the map, replacing what the key held before.
    #[verifier::loop_isolation(false)]
    pub fn insert(&mut self, k: &Peer, v: V)
        requires
            pm_wf(old(self)@),
        ensures
            pm_wf(final(self)@),
            pm_insert_rel(old(self)@, final(self)@, k@, v),
            pm_has(old(self)@, k@) ==> final(self)@ == old(self)@.update(
                pm_idx(old(self)@, k@),
                (k@, v),
            ),
            !pm_has(old(self)@, k@) ==> final(self)@ == old(self)@.push((k@, v)),
            old(self)@.len() <= final(self)@.len() <= old(self)@.len() + 1,
            final(self)@.len() == old(self)@.len() + 1 <==> !pm_has(old(self)@, k@),
    {
        let ghost s0 = self@;
        let ghost vg = v;
        let n = self.entries.len();
        let mut i: usize = 0;
        while i < n
            invariant
                self@ == s0,
                n == s0.len(),
                i <= n,
                pm_wf(s0),
                forall|j: int| 0 <= j < i ==> s0[j].0 != k@,
            decreases n - i,
        {
            if self.entries[i].0 == *k {
                proof {
                    assert(self@[i as int].0 == k@);
                    lemma_pm_at_unique(s0, k@, i as int);
                }
                self.entries.set(i, (k.clone(), v));
                proof {
                    let t = self@;
                    assert(t.len() == s0.len());
                    assert(forall|j: int| 0 <= j < t.len() && j != i ==> t[j] == s0[j]);
                    assert(t[i as int] == (k@, vg));
                    assert(t =~= s0.update(i as int, (k@, vg)));
                    lemma_pm_at_unique(t, k@, i as int);
                    assert forall|j: int| 0 <= j < s0.len() && s0[j].0 != k@ implies pm_has(
                        t,
                        s0[j].0,
                    ) && pm_at(t, s0[j].0) == s0[j].1 by {
                        assert(t[j] == s0[j]);
                        lemma_pm_at_unique(t, s0[j].0, j);
                    }
                    assert forall|j: int| 0 <= j < t.len() implies t[j] == (k@, vg) || (t[j].0 != k@
                        && pm_has(s0, t[j].0) && pm_at(s0, t[j].0) == t[j].1) by {
                        if j != i {
                            lemma_pm_at_unique(s0, s0[j].0, j);
                        }
                    }
                }
                return ;
            }
            i += 1;
        }
        self.entries.push((k.clone(), v));
        proof {
            let t = self@;
            assert(t.len() == s0.len() + 1);
            assert(forall|j: int| 0 <= j < s0.len() ==> t[j] == s0[j]);
            assert(t[s0.len() as int] == (k@, vg));
            assert(t =~= s0.push((k@, vg)));
            lemma_pm_at_unique(t, k@, s0.len() as int);
            assert forall|j: int| 0 <= j < s0.len() && s0[j].0 != k@ implies pm_has(t, s0[j].0)
                && pm_at(t, s0[j].0) == s0[j].1 by {
                assert(t[j] == s0[j]);
                lemma_pm_at_unique(t, s0[j].0, j);
            }
            assert forall|j: int| 0 <= j < t.len() implies t[j] == (k@, vg) || (t[j].0 != k@
                && pm_has(s0, t[j].0) && pm_at(s0, t[j].0) == t[j].1) by {
                if j < s0.len() {
                    lemma_pm_at_unique(s0, s0[j].0, j);
                }
            }
        }
    }

    /// Take the key out of the map, returning what it held.
    #[verifier::loop_isolation(false)]
    pub fn remove(&mut self, k: &Peer) -> (r: Option<V>)
        requires
            pm_wf(old(self)@),
        ensures
            pm_wf(final(self)@),
            pm_remove_rel(old(self)@, final(self)@, k@),
            pm_has(old(self)@, k@) ==> final(self)@ == old(self)@.remove(pm_idx(old(self)@, k@)),
            !pm_has(old(self)@, k@) ==> final(self)@ == old(self)@,
            match r {
                Some(v) => pm_has(old(self)@, k@) && pm_at(old(self)@, k@) == v,
                None => !pm_has(old(self)@, k@),
            },
    {
        let ghost s0 = self@;
        let n = self.entries.len();
        let mut i: usize = 0;
        while i < n
            invariant
                self@ == s0,
                n == s0.len(),
                i <= n,
                pm_wf(s0),
                forall|j: int| 0 <= j < i ==> s0[j].0 != k@,
            decreases n - i,
        {
            if self.entries[i].0 == *k {
                proof {
                    assert(self@[i as int].0 == k@);
                    lemma_pm_at_unique(s0, k@, i as int);
                }
                let (_, v) = self.entries.remove(i);
                proof {
                    let t = self@;
                    assert(t.len() == s0.len() - 1);
                    assert(forall|j: int| 0 <= j < i ==> t[j] == s0[j]);
                    assert(forall|j: int| i <= j < t.len() ==> t[j] == s0[j + 1]);
                    assert(t =~= s0.remove(i as int));
                    assert forall|a: int, b: int|
                        0 <= a < t.len() && 0 <= b < t.len() && a != b implies t[a].0
                        != t[b].0 by {
                        let ia: int = if a < i {
                            a
                        } else {
                            a + 1
                        };
                        let ib: int = if b < i {
                            b
                        } else {
                            b + 1
                        };
                        assert(t[a] == s0[ia] && t[b] == s0[ib]);
                        assert(s0[ia].0 != s0[ib].0);
                    }
                    assert forall|j: int| 0 <= j < s0.len() && s0[j].0 != k@ implies pm_has(
                        t,
                        s0[j].0,
                    ) && pm_at(t, s0[j].0) == s0[j].1 by {
                        if j < i {
                            lemma_pm_at_unique(t, s0[j].0, j);
                        } else {
                            assert(t[j - 1] == s0[j]);
                            lemma_pm_at_unique(t, s0[j].0, j - 1);
                        }
                    }
                    assert forall|j: int| 0 <= j < t.len() implies t[j].0 != k@ && pm_has(
                        s0,
                        t[j].0,
                    ) && pm_at(s0, t[j].0) == t[j].1 by {
                        if j < i {
                            lemma_pm_at_unique(s0, s0[j].0, j);
                            lemma_pm_at_unique(t, t[j].0, j);
                        } else {
                            assert(t[j] == s0[j + 1]);
                            assert(s0[j + 1].0 != s0[i as int].0);
                            lemma_pm_at_unique(s0, s0[j + 1].0, j + 1);
                            lemma_pm_at_unique(t, t[j].0, j);
                        }
                    }
                }
                return Some(v);
            }
            i += 1;
        }
        None
    }

    /// The key of the entry at a storage index.
    pub fn key_at(&self, i: usize) -> (r: &Peer)
        requires
            i < self@.len(),
        ensures
            r@ == self@[i as int].0,
    {
        &self.entries[i].0
    }

    /// The value of the entry at a storage index.
    pub fn val_at(&self, i: usize) -> (r: &V)
        requires
            i < self@.len(),
        ensures
            *r == self@[i as int].1,
    {
        &self.entries[i].1
    }

    /// All keys, in storage order.
    pub fn keys(&self) -> (r: Vec<Peer>)
        ensures
            r@.len() == self@.len(),
            forall|i: int| 0 <= i < r@.len() ==> r@[i]@ == self@[i].0,
    {
        let n = self.entries.len();
        let mut out: Vec<Peer> = Vec::new();
        let mut i: usize = 0;
        while i < n
            invariant
                n == self@.len(),
                i <= n,
                out@.len() == i,
                forall|j: int| 0 <= j < i ==> out@[j]@ == self@[j].0,
            decreases n - i,
        {
            let p = self.entries[i].0.clone();
            out.push(p);
            i += 1;
        }
        out
    }
}

} // verus!
