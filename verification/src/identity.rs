//! Peer identity: a 32-byte id, optionally bound to a public key.
//!
//! The id is the SM3 digest of the serialized public key, or a random value
//! when no key is bound. The all-zero id is reserved as the broadcast
//! placeholder; `common` excludes it from normal-peer logic. Peers are equal
//! exactly when their id bytes are equal; the public key is metadata.

use vstd::prelude::*;

use crate::error::TryfromSliceError;

verus! {

/// Number of bytes in a peer id.
pub const PEER_ID_SIZE: usize = 32;

/// What the SM3 digest of a byte string is. The digest is a function of the
/// input bytes alone; only its length is stated beside the name.
pub uninterp spec fn sm3_of(data: Seq<u8>) -> Seq<u8>;

/// Relies on libsm's `Sm3Hash::new` and `Sm3Hash::get_hash`: the SM3 digest of
/// the input, always 32 bytes (SM3 is a 256-bit hash).
#[verifier::external_body]
fn sm3_digest(data: &[u8]) -> (r: Vec<u8>)
    ensures
        r@ == sm3_of(data@),
        r@.len() == PEER_ID_SIZE,
{
    let mut hash = libsm::sm3::hash::Sm3Hash::new(data);
    hash.get_hash().to_vec()
}

/// Relies on rand's `fill`: 32 bytes from the thread-local generator. Nothing
/// is promised of the values.
#[verifier::external_body]
fn random_id_bytes() -> (r: Vec<u8>)
    ensures
        r@.len() == PEER_ID_SIZE,
{
    let mut buf = [0u8; 32];
    rand::fill(&mut buf);
    buf.to_vec()
}


/// The id sequences of a sequence of peers.
pub open spec fn ids_of(s: Seq<Peer>) -> Seq<Seq<u8>> {
    Seq::new(s.len(), |i: int| s[i]@)
}

/// No two peers of the sequence share an id.
pub open spec fn peers_nodup(s: Seq<Peer>) -> bool {
    forall|i: int, j: int| 0 <= i < s.len() && 0 <= j < s.len() && i != j ==> s[i]@ != s[j]@
}

/// Copy a list of peers; the copy lists the same ids in the same order.
pub fn clone_peers(v: &Vec<Peer>) -> (r: Vec<Peer>)
    ensures
        r@.len() == v@.len(),
        ids_of(r@) == ids_of(v@),
{
    let n = v.len();
    let mut out: Vec<Peer> = Vec::new();
    let mut i: usize = 0;
    while i < n
        invariant
            n == v@.len(),
            i <= n,
            out@.len() == i,
            forall|j: int| 0 <= j < i ==> out@[j]@ == v@[j]@,
        decreases n - i,
    {
        let p = v[i].clone();
        out.push(p);
        i += 1;
    }
    proof {
        assert(ids_of(out@) =~= ids_of(v@));
    }
    out
}

/// The position of an id in a list of ids.
pub open spec fn id_index(s: Seq<Seq<u8>>, x: Seq<u8>) -> int {
    choose|i: int| 0 <= i < s.len() && s[i] == x
}

/// In a duplicate-free list the position of a present id is the only one
/// that carries it.
pub proof fn lemma_id_index_unique(s: Seq<Peer>, x: Seq<u8>, i: int)
    requires
        peers_nodup(s),
        0 <= i < s.len(),
        s[i]@ == x,
    ensures
        ids_of(s).contains(x),
        id_index(ids_of(s), x) == i,
{
    assert(ids_of(s)[i] == x);
    let j = id_index(ids_of(s), x);
    if j != i {
        assert(s[j]@ == ids_of(s)[j]);
        assert(s[i]@ != s[j]@);
    }
}

/// Whether the list holds a peer with this id.
pub fn contains_peer(v: &Vec<Peer>, p: &Peer) -> (r: bool)
    ensures
        r == ids_of(v@).contains(p@),
{
    let n = v.len();
    let mut i: usize = 0;
    while i < n
        invariant
            n == v@.len(),
            i <= n,
            forall|j: int| 0 <= j < i ==> v@[j]@ != p@,
        decreases n - i,
    {
        if v[i] == *p {
            proof {
                assert(ids_of(v@)[i as int] == p@);
            }
            return true;
        }
        i += 1;
    }
    proof {
        if ids_of(v@).contains(p@) {
            let j = choose|j: int| 0 <= j < ids_of(v@).len() && ids_of(v@)[j] == p@;
            assert(v@[j]@ == p@);
        }
    }
    false
}

/// A peer identity: 32 id bytes, and the serialized public key they were
/// derived from, where one is bound.
#[derive(Debug)]
pub struct Peer {
    id: Vec<u8>,
    pubkey: Option<Vec<u8>>,
}

impl View for Peer {
    type V = Seq<u8>;

    /// A peer is known by its id bytes; the bound key is metadata.
    closed spec fn view(&self) -> Seq<u8> {
        self.id@
    }
}

impl Peer {
    /// Every peer id holds exactly `PEER_ID_SIZE` bytes.
    pub open spec fn wf(&self) -> bool {
        self@.len() == PEER_ID_SIZE
    }

    /// The serialized public key this identity is bound to, if any.
    pub closed spec fn pubkey_spec(&self) -> Option<Seq<u8>> {
        match self.pubkey {
            Some(pk) => Some(pk@),
            None => None,
        }
    }

    /// The id sequence of the reserved broadcast placeholder: all zeros.
    pub open spec fn broadcast_id_spec() -> Seq<u8> {
        Seq::new(PEER_ID_SIZE as nat, |i: int| 0u8)
    }

    /// The reserved all-zero placeholder identity.
    pub fn broadcast_id() -> (r: Peer)
        ensures
            r@ == Self::broadcast_id_spec(),
            r.wf(),
            r.pubkey_spec() is None,
    {
        let mut id: Vec<u8> = Vec::new();
        while id.len() < PEER_ID_SIZE
            invariant
                id@.len() <= PEER_ID_SIZE,
                forall|i: int| 0 <= i < id@.len() ==> id@[i] == 0u8,
            decreases PEER_ID_SIZE - id@.len(),
        {
            id.push(0u8);
        }
        proof {
            assert(id@ =~= Self::broadcast_id_spec());
        }
        Peer { id, pubkey: None }
    }

    /// True of every identity but the broadcast placeholder.
    pub fn common(&self) -> (r: bool)
        ensures
            r == (self@ != Self::broadcast_id_spec()),
    {
        let mut i: usize = 0;
        let n = self.id.len();
        if n != PEER_ID_SIZE {
            proof {
                assert(self@.len() != Self::broadcast_id_spec().len());
            }
            return true;
        }
        while i < n
            invariant
                n == self.id@.len(),
                n == PEER_ID_SIZE,
                i <= n,
                forall|j: int| 0 <= j < i ==> self.id@[j] == 0u8,
            decreases n - i,
        {
            if self.id[i] != 0u8 {
                proof {
                    assert(self@[i as int] != Self::broadcast_id_spec()[i as int]);
                }
                return true;
            }
            i += 1;
        }
        proof {
            assert(self@ =~= Self::broadcast_id_spec());
        }
        false
    }

    /// The id bytes.
    pub fn get_id(&self) -> (r: Vec<u8>)
        ensures
            r@ == self@,
    {
        self.id.clone()
    }

    /// The serialized public key this identity is bound to, if any.
    pub fn get_pubkey(&self) -> (r: Option<Vec<u8>>)
        ensures
            match r {
                Some(pk) => self.pubkey_spec() == Some(pk@),
                None => self.pubkey_spec() is None,
            },
    {
        match &self.pubkey {
            Some(pk) => Some(pk.clone()),
            None => None,
        }
    }

    /// Identity derived from a serialized public key: the id is the key's SM3
    /// digest and the key stays bound.
    pub fn from_public_key(pk: &[u8]) -> (r: Peer)
        ensures
            r@ == sm3_of(pk@),
            r.pubkey_spec() == Some(pk@),
            r.wf(),
    {
        Peer { id: sm3_digest(pk), pubkey: Some(vstd::slice::slice_to_vec(pk)) }
    }

    /// Identity with an unpredictable id and no bound key.
    pub fn from_random() -> (r: Peer)
        ensures
            r.wf(),
            r.pubkey_spec() is None,
    {
        Peer { id: random_id_bytes(), pubkey: None }
    }

    /// Identity whose id is the SM3 digest of arbitrary bytes; no bound key.
    pub fn from_bytes(bytes: &[u8]) -> (r: Peer)
        ensures
            r@ == sm3_of(bytes@),
            r.wf(),
            r.pubkey_spec() is None,
    {
        Peer { id: sm3_digest(bytes), pubkey: None }
    }

    /// Identity with the given id bytes and no bound key, accepted exactly
    /// when the slice holds `PEER_ID_SIZE` bytes.
    pub fn try_from_id(id: &[u8]) -> (r: Result<Peer, TryfromSliceError>)
        ensures
            match r {
                Ok(p) => id@.len() == PEER_ID_SIZE && p@ == id@ && p.wf() && p.pubkey_spec()
                    is None,
                Err(_) => id@.len() != PEER_ID_SIZE,
            },
    {
        if id.len() == PEER_ID_SIZE {
            Ok(Peer { id: vstd::slice::slice_to_vec(id), pubkey: None })
        } else {
            Err(TryfromSliceError::new("peer id must hold exactly 32 bytes"))
        }
    }

    /// Lexicographic strictly-greater comparison of two id sequences.
    pub open spec fn id_gt(a: Seq<u8>, b: Seq<u8>) -> bool
        decreases a.len(),
    {
        if a.len() == 0 {
            false
        } else if b.len() == 0 {
            true
        } else if a[0] != b[0] {
            a[0] > b[0]
        } else {
            Self::id_gt(a.skip(1), b.skip(1))
        }
    }

    /// True when this peer's id orders strictly after the other's,
    /// lexicographically by bytes. Used for symmetric tie-breaks.
    pub fn gt(&self, other: &Peer) -> (r: bool)
        ensures
            r == Self::id_gt(self@, other@),
    {
        let mut i: usize = 0;
        let an = self.id.len();
        let bn = other.id.len();
        proof {
            assert(self@.skip(0) =~= self@);
            assert(other@.skip(0) =~= other@);
        }
        loop
            invariant
                i <= an,
                i <= bn,
                an == self@.len(),
                bn == other@.len(),
                forall|j: int| 0 <= j < i ==> self@[j] == other@[j],
                Self::id_gt(self@, other@) == Self::id_gt(
                    self@.skip(i as int),
                    other@.skip(i as int),
                ),
            decreases an - i,
        {
            if i == an {
                proof {
                    assert(self@.skip(i as int).len() == 0);
                }
                return false;
            }
            if i == bn {
                proof {
                    assert(self@.skip(i as int).len() > 0);
                    assert(other@.skip(i as int).len() == 0);
                }
                return true;
            }
            let a = self.id[i];
            let b = other.id[i];
            if a != b {
                proof {
                    assert(self@.skip(i as int)[0] == self@[i as int]);
                    assert(other@.skip(i as int)[0] == other@[i as int]);
                }
                return a > b;
            }
            proof {
                assert(self@.skip(i as int)[0] == other@.skip(i as int)[0]);
                assert(self@.skip(i as int).skip(1) =~= self@.skip(i + 1));
                assert(other@.skip(i as int).skip(1) =~= other@.skip(i + 1));
            }
            i += 1;
        }
    }
}

impl Clone for Peer {
    /// A cloned peer has the same id and the same bound key.
    fn clone(&self) -> (r: Self)
        ensures
            r@ == self@,
            r.pubkey_spec() == self.pubkey_spec(),
    {
        Peer {
            id: self.id.clone(),
            pubkey: match &self.pubkey {
                Some(pk) => Some(pk.clone()),
                None => None,
            },
        }
    }
}

impl PartialEq for Peer {
    /// Peers are equal exactly when their id bytes are equal.
    fn eq(&self, other: &Self) -> (r: bool) {
        let mut i: usize = 0;
        let an = self.id.len();
        if an != other.id.len() {
            return false;
        }
        while i < an
            invariant
                an == self@.len(),
                an == other@.len(),
                i <= an,
                forall|j: int| 0 <= j < i ==> self@[j] == other@[j],
            decreases an - i,
        {
            if self.id[i] != other.id[i] {
                return false;
            }
            i += 1;
        }
        proof {
            assert(self@ =~= other@);
        }
        true
    }
}

impl vstd::std_specs::cmp::PartialEqSpecImpl for Peer {
    open spec fn obeys_eq_spec() -> bool {
        true
    }

    open spec fn eq_spec(&self, other: &Peer) -> bool {
        self@ == other@
    }
}

impl Eq for Peer {}

} // verus!
