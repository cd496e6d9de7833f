//! The address book: an injective mapping between peer identities and their
//! locators, with lookup and update from either side.
//!
//! Invariant: at any time each peer maps to at most one locator and each
//! locator (by IP) to at most one peer. Every mutation keeps the mapping
//! injective both ways.

use vstd::prelude::*;

use crate::identity::Peer;
use crate::sock::{SocketAddrBi, SocketAddrBiView};

verus! {

/// The entries of a book: pairs of a peer id and a locator value.
pub type BookSeq = Seq<(Seq<u8>, SocketAddrBiView)>;

/// No two entries share a peer id, and no two share an IP.
pub open spec fn book_wf(s: BookSeq) -> bool {
    forall|i: int, j: int|
        0 <= i < s.len() && 0 <= j < s.len() && i != j ==> s[i].0 != s[j].0 && s[i].1.ip
            != s[j].1.ip
}

/// Some entry carries this peer id.
pub open spec fn book_has_key(s: BookSeq, k: Seq<u8>) -> bool {
    exists|i: int| 0 <= i < s.len() && s[i].0 == k
}

/// Some entry carries this IP.
pub open spec fn book_has_ip(s: BookSeq, ip: Seq<u8>) -> bool {
    exists|i: int| 0 <= i < s.len() && s[i].1.ip == ip
}

/// This exact entry stands in the book.
pub open spec fn book_has_pair(s: BookSeq, k: Seq<u8>, v: SocketAddrBiView) -> bool {
    exists|i: int| 0 <= i < s.len() && s[i] == (k, v)
}

/// An entry survives an insertion of `(k, v)` exactly when it collides with
/// neither the new key nor the new IP.
pub open spec fn book_insert_keeps(
    s: BookSeq,
    t: BookSeq,
    k: Seq<u8>,
    v: SocketAddrBiView,
) -> bool {
    &&& (forall|i: int|
        0 <= i < s.len() && s[i].0 != k && s[i].1.ip != v.ip ==> book_has_pair(t, s[i].0, s[i].1))
    &&& (forall|j: int|
        0 <= j < t.len() ==> t[j] == (k, v) || (book_has_pair(s, t[j].0, t[j].1) && t[j].0 != k
            && t[j].1.ip != v.ip))
}

/// The entries a vector of peer-locator pairs stands for.
pub open spec fn pairs_view(p: Seq<(Peer, SocketAddrBi)>) -> BookSeq {
    Seq::new(p.len(), |i: int| (p[i].0@, p[i].1@))
}

/// A bidirectional map between peers and locators, injective both ways.
pub struct BidirctHashmap {
    pairs: Vec<(Peer, SocketAddrBi)>,
}

impl View for BidirctHashmap {
    type V = BookSeq;

    closed spec fn view(&self) -> BookSeq {
        pairs_view(self.pairs@)
    }
}

impl BidirctHashmap {
    /// An empty book.
    pub fn new() -> (r: Self)
        ensures
            r@.len() == 0,
            book_wf(r@),
    {
        Self { pairs: Vec::new() }
    }

    /// How many peers the book holds.
    pub fn len(&self) -> (r: usize)
        ensures
            r == self@.len(),
    {
        self.pairs.len()
    }

    /// Whether the book knows this peer.
    pub fn contains_key(&self, k: &Peer) -> (r: bool)
        ensures
            r == book_has_key(self@, k@),
    {
        let n = self.pairs.len();
        let mut i: usize = 0;
        while i < n
            invariant
                n == self@.len(),
                i <= n,
                forall|j: int| 0 <= j < i ==> self@[j].0 != k@,
            decreases n - i,
        {
            if self.pairs[i].0 == *k {
                proof {
                    assert(self@[i as int].0 == k@);
                }
                return true;
            }
            i += 1;
        }
        false
    }

    /// Whether the book knows this locator's IP.
    pub fn contains_value(&self, v: &SocketAddrBi) -> (r: bool)
        ensures
            r == book_has_ip(self@, v@.ip),
    {
        let n = self.pairs.len();
        let mut i: usize = 0;
        while i < n
            invariant
                n == self@.len(),
                i <= n,
                forall|j: int| 0 <= j < i ==> self@[j].1.ip != v@.ip,
            decreases n - i,
        {
            if self.pairs[i].1.same_ip(v) {
                proof {
                    assert(self@[i as int].1.ip == v@.ip);
                }
                return true;
            }
            i += 1;
        }
        false
    }

    /// The locator a peer maps to, if the book knows the peer.
    pub fn get_by_key(&self, k: &Peer) -> (r: Option<&SocketAddrBi>)
        ensures
            match r {
                Some(v) => book_has_pair(self@, k@, v@),
                None => !book_has_key(self@, k@),
            },
    {
        let n = self.pairs.len();
        let mut i: usize = 0;
        while i < n
            invariant
                n == self@.len(),
                i <= n,
                forall|j: int| 0 <= j < i ==> self@[j].0 != k@,
            decreases n - i,
        {
            if self.pairs[i].0 == *k {
                proof {
                    assert(self@[i as int] == (k@, self.pairs@[i as int].1@));
                }
                return Some(&self.pairs[i].1);
            }
            i += 1;
        }
        None
    }

    /// The peer a locator's IP maps to, if the book knows the IP.
    pub fn get_by_value(&self, v: &SocketAddrBi) -> (r: Option<&Peer>)
        ensures
            match r {
                Some(k) => exists|i: int|
                    0 <= i < self@.len() && self@[i].0 == k@ && self@[i].1.ip == v@.ip,
                None => !book_has_ip(self@, v@.ip),
            },
    {
        let n = self.pairs.len();
        let mut i: usize = 0;
        while i < n
            invariant
                n == self@.len(),
                i <= n,
                forall|j: int| 0 <= j < i ==> self@[j].1.ip != v@.ip,
            decreases n - i,
        {
            if self.pairs[i].1.same_ip(v) {
                proof {
                    assert(self@[i as int].0 == self.pairs@[i as int].0@);
                    assert(self@[i as int].1.ip == v@.ip);
                }
                return Some(&self.pairs[i].0);
            }
            i += 1;
        }
        None
    }

    /// Put `(k, v)` in the book. Any entry under the same peer and any entry
    /// under the same IP give way, so the book stays injective both ways.
    pub fn insert(&mut self, k: &Peer, v: &SocketAddrBi)
        requires
            book_wf(old(self)@),
        ensures
            book_wf(final(self)@),
            book_has_pair(final(self)@, k@, v@),
            book_insert_keeps(old(self)@, final(self)@, k@, v@),
    {
        let ghost s0 = self@;
        let n = self.pairs.len();
        let mut kept: Vec<(Peer, SocketAddrBi)> = Vec::new();
        let mut i: usize = 0;
        while i < n
            invariant
                self@ == s0,
                n == s0.len(),
                i <= n,
                book_wf(s0),
                book_wf(pairs_view(kept@)),
                forall|l: int|
                    #![trigger pairs_view(kept@)[l]]
                    0 <= l < kept@.len() ==> pairs_view(kept@)[l].0 != k@ && pairs_view(
                        kept@,
                    )[l].1.ip != v@.ip && (exists|j: int|
                        0 <= j < i && s0[j] == pairs_view(kept@)[l]),
                forall|j: int|
                    0 <= j < i && s0[j].0 != k@ && s0[j].1.ip != v@.ip ==> book_has_pair(
                        pairs_view(kept@),
                        s0[j].0,
                        s0[j].1,
                    ),
            decreases n - i,
        {
            let ghost kv0 = pairs_view(kept@);
            let keep = self.pairs[i].0 != *k && !self.pairs[i].1.same_ip(v);
            if keep {
                let p = self.pairs[i].0.clone();
                let a = self.pairs[i].1.clone();
                kept.push((p, a));
                proof {
                    let kv = pairs_view(kept@);
                    assert(kv.len() == kv0.len() + 1);
                    assert(forall|l: int| 0 <= l < kv0.len() ==> kv[l] == kv0[l]);
                    assert(kv[kv0.len() as int] == s0[i as int]);
                    assert forall|l: int| 0 <= l < kv0.len() implies kv0[l].0 != s0[i as int].0
                        && kv0[l].1.ip != s0[i as int].1.ip by {
                        let j = choose|j: int| 0 <= j < i && s0[j] == kv0[l];
                        assert(s0[j].0 != s0[i as int].0);
                    }
                }
            }
            i += 1;
        }
        let ghost kv0 = pairs_view(kept@);
        kept.push((k.clone(), v.clone()));
        proof {
            let kv = pairs_view(kept@);
            assert(kv.len() == kv0.len() + 1);
            assert(forall|l: int| 0 <= l < kv0.len() ==> kv[l] == kv0[l]);
            assert(kv[kv0.len() as int] == (k@, v@));
        }
        self.pairs = kept;
        proof {
            let t = final(self)@;
            assert(book_has_pair(t, k@, v@));
            assert forall|j: int|
                0 <= j < s0.len() && s0[j].0 != k@ && s0[j].1.ip != v@.ip implies book_has_pair(
                t,
                s0[j].0,
                s0[j].1,
            ) by {
                assert(book_has_pair(kv0, s0[j].0, s0[j].1));
                let l = choose|l: int| 0 <= l < kv0.len() && kv0[l] == (s0[j].0, s0[j].1);
                assert(t[l] == (s0[j].0, s0[j].1));
            }
        }
    }

    /// Replace the locator a known peer maps to. Returns `None`, changing
    /// nothing, when the peer is unknown. Any other entry under the new IP
    /// gives way, so the book stays injective both ways.
    pub fn update_by_key(&mut self, k: &Peer, v: &SocketAddrBi) -> (r: Option<()>)
        requires
            book_wf(old(self)@),
        ensures
            book_wf(final(self)@),
            r is Some <==> book_has_key(old(self)@, k@),
            r is None ==> final(self)@ == old(self)@,
            r is Some ==> book_has_pair(final(self)@, k@, v@) && book_insert_keeps(
                old(self)@,
                final(self)@,
                k@,
                v@,
            ),
    {
        if !self.contains_key(k) {
            return None;
        }
        self.insert(k, v);
        Some(())
    }

    /// Replace the peer a known locator maps to. Returns `None`, changing
    /// nothing, when the IP is unknown. Any other entry under the new peer
    /// gives way, so the book stays injective both ways.
    pub fn update_by_value(&mut self, v: &SocketAddrBi, k: &Peer) -> (r: Option<()>)
        requires
            book_wf(old(self)@),
        ensures
            book_wf(final(self)@),
            r is Some <==> book_has_ip(old(self)@, v@.ip),
            r is None ==> final(self)@ == old(self)@,
            r is Some ==> book_has_pair(final(self)@, k@, v@) && book_insert_keeps(
                old(self)@,
                final(self)@,
                k@,
                v@,
            ),
    {
        if !self.contains_value(v) {
            return None;
        }
        self.insert(k, v);
        Some(())
    }

    /// All entries, in the book's storage order.
    pub fn iter(&self) -> (r: Vec<(Peer, SocketAddrBi)>)
        ensures
            r@.len() == self@.len(),
            forall|i: int| 0 <= i < r@.len() ==> (r@[i].0@, r@[i].1@) == self@[i],
    {
        let n = self.pairs.len();
        let mut out: Vec<(Peer, SocketAddrBi)> = Vec::new();
        let mut i: usize = 0;
        while i < n
            invariant
                n == self@.len(),
                i <= n,
                out@.len() == i,
                forall|j: int| 0 <= j < i ==> (out@[j].0@, out@[j].1@) == self@[j],
            decreases n - i,
        {
            let p = self.pairs[i].0.clone();
            let a = self.pairs[i].1.clone();
            out.push((p, a));
            i += 1;
        }
        out
    }
}

/// Address-book bijectivity: in a well-formed book, an entry's key looks up
/// exactly its value and the entry's IP looks up exactly its key, so
/// following one lookup with the other is the identity on present entries.
pub proof fn lemma_book_bijective(s: BookSeq, k: Seq<u8>, v: SocketAddrBiView)
    requires
        book_wf(s),
        book_has_pair(s, k, v),
    ensures
        forall|j: int| 0 <= j < s.len() && s[j].0 == k ==> s[j].1 == v,
        forall|j: int| 0 <= j < s.len() && s[j].1.ip == v.ip ==> s[j].0 == k && s[j].1 == v,
{
    let i = choose|i: int| 0 <= i < s.len() && s[i] == (k, v);
    assert forall|j: int| 0 <= j < s.len() && s[j].0 == k implies s[j].1 == v by {
        if j != i {
            assert(s[i].0 != s[j].0);
        }
    }
    assert forall|j: int| 0 <= j < s.len() && s[j].1.ip == v.ip implies s[j].0 == k && s[j].1
        == v by {
        if j != i {
            assert(s[i].1.ip != s[j].1.ip);
        }
    }
}

} // verus!
