//! Transport-level measurements per peer: the locator probed, the observed
//! latency and the observed bandwidth.
//!
//! The store is plain data; the active probe that fills it performs network
//! I/O and lives outside the library. Missing peers yield `None` and callers
//! treat that as "cannot evaluate".

use vstd::prelude::*;

use crate::identity::Peer;
use crate::peer_map::{PeerMap, pm_at, pm_has, pm_insert_rel, pm_wf};
use crate::sock::SocketAddrBi;

verus! {

/// What has been measured of one peer.
#[derive(Debug)]
pub struct NetStatEntry {
    pub addr: SocketAddrBi,
    pub latency: u64,
    pub bandwidth: u64,
}

impl NetStatEntry {
    /// A fresh entry: the locator is known, nothing is measured yet.
    pub fn new(addr: SocketAddrBi) -> (r: Self)
        ensures
            r.addr@ == addr@,
            r.latency == 0,
            r.bandwidth == 0,
    {
        Self { addr, latency: 0, bandwidth: 0 }
    }
}

/// Per-peer measurement store.
pub struct NetStat {
    stat_by_peer: PeerMap<NetStatEntry>,
}

impl View for NetStat {
    type V = Seq<(Seq<u8>, NetStatEntry)>;

    closed spec fn view(&self) -> Seq<(Seq<u8>, NetStatEntry)> {
        self.stat_by_peer@
    }
}

impl NetStat {
    /// No peer is measured twice.
    pub open spec fn wf(&self) -> bool {
        pm_wf(self@)
    }

    /// An empty store.
    pub fn new() -> (r: Self)
        ensures
            r@.len() == 0,
            r.wf(),
    {
        Self { stat_by_peer: PeerMap::new() }
    }

    /// The last observed hop latency to the peer, in milliseconds; `None` for
    /// a peer never measured.
    pub fn latency(&self, to: &Peer) -> (r: Option<u64>)
        requires
            self.wf(),
        ensures
            match r {
                Some(v) => pm_has(self@, to@) && pm_at(self@, to@).latency == v,
                None => !pm_has(self@, to@),
            },
    {
        match self.stat_by_peer.get(to) {
            Some(entry) => Some(entry.latency),
            None => None,
        }
    }

    /// The last observed bandwidth to the peer, in bits per second; `None`
    /// for a peer never measured.
    pub fn bandwidth(&self, to: &Peer) -> (r: Option<u64>)
        requires
            self.wf(),
        ensures
            match r {
                Some(v) => pm_has(self@, to@) && pm_at(self@, to@).bandwidth == v,
                None => !pm_has(self@, to@),
            },
    {
        match self.stat_by_peer.get(to) {
            Some(entry) => Some(entry.bandwidth),
            None => None,
        }
    }

    /// Record an observation. A peer not yet in the store needs its locator;
    /// without one the call changes nothing. Fields given as `None` keep
    /// their stored value.
    pub fn set(&mut self, target: &Peer, addr: Option<SocketAddrBi>, lat: Option<u64>, bw: Option<
        u64,
    >)
        requires
            old(self).wf(),
        ensures
            final(self).wf(),
            !pm_has(old(self)@, target@) && addr is None ==> final(self)@ == old(self)@,
            pm_has(old(self)@, target@) || addr is Some ==> pm_has(final(self)@, target@) && {
                let entry = pm_at(final(self)@, target@);
                &&& entry.latency == (if lat is Some {
                    lat->0
                } else if pm_has(old(self)@, target@) {
                    pm_at(old(self)@, target@).latency
                } else {
                    0
                })
                &&& entry.bandwidth == (if bw is Some {
                    bw->0
                } else if pm_has(old(self)@, target@) {
                    pm_at(old(self)@, target@).bandwidth
                } else {
                    0
                })
            } && pm_insert_rel(old(self)@, final(self)@, target@, pm_at(final(self)@, target@)),
    {
        let base = match self.stat_by_peer.get(target) {
            Some(entry) => NetStatEntry {
                addr: entry.addr.clone(),
                latency: entry.latency,
                bandwidth: entry.bandwidth,
            },
            None => {
                match addr {
                    Some(a) => NetStatEntry::new(a),
                    None => {
                        return ;
                    },
                }
            },
        };
        let updated = NetStatEntry {
            addr: base.addr,
            latency: match lat {
                Some(l) => l,
                None => base.latency,
            },
            bandwidth: match bw {
                Some(b) => b,
                None => base.bandwidth,
            },
        };
        self.stat_by_peer.insert(target, updated);
    }
}

} // verus!
