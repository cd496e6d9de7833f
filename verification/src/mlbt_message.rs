//! The relay-control messages the MLBT plane exchanges, and their wire
//! forms.
//!
//! A control message is `{kind, id, payload}`: the kind as four big-endian
//! bytes, the per-node sequence number as eight, then the kind's payload.
//! ACCEPT and REJECT carry exactly the eight-byte id they answer; JOIN and
//! LEAVE carry the 32-byte source id; the remaining kinds carry the fixed
//! fields the protocol step needs.

use vstd::prelude::*;

use crate::codec::{
    push_u32_be, push_u64_be, read_u32_be, read_u64_be, spec_u32_be, spec_u32_from_be, spec_u64_be,
    spec_u64_from_be,
};
use crate::error::{DeserializeError, SerializeError};
use crate::identity::{PEER_ID_SIZE, Peer};

verus! {

/// The kinds of relay-control messages.
#[allow(non_camel_case_types)]
#[derive(Clone, Copy, Debug, PartialEq, Eq, Structural)]
pub enum RelayMsgKind {
    JOIN,
    LEAVE,
    ACCEPT,
    REJECT,
    MERGE,
    MERGE_CHECK,
    GRANT,
    GRANT_INFO,
    RETRACT,
    RETRACT_INFO,
    RETRACT_REPLY,
}

/// The dense small integer a control kind is written as.
pub open spec fn spec_relay_msg_num(k: RelayMsgKind) -> u32 {
    match k {
        RelayMsgKind::JOIN => 0,
        RelayMsgKind::LEAVE => 1,
        RelayMsgKind::ACCEPT => 2,
        RelayMsgKind::REJECT => 3,
        RelayMsgKind::MERGE => 4,
        RelayMsgKind::MERGE_CHECK => 5,
        RelayMsgKind::GRANT => 6,
        RelayMsgKind::GRANT_INFO => 7,
        RelayMsgKind::RETRACT => 8,
        RelayMsgKind::RETRACT_INFO => 9,
        RelayMsgKind::RETRACT_REPLY => 10,
    }
}

/// The control kind a field value stands for, if any.
pub open spec fn spec_relay_msg_kind(n: u32) -> Option<RelayMsgKind> {
    if n == 0 {
        Some(RelayMsgKind::JOIN)
    } else if n == 1 {
        Some(RelayMsgKind::LEAVE)
    } else if n == 2 {
        Some(RelayMsgKind::ACCEPT)
    } else if n == 3 {
        Some(RelayMsgKind::REJECT)
    } else if n == 4 {
        Some(RelayMsgKind::MERGE)
    } else if n == 5 {
        Some(RelayMsgKind::MERGE_CHECK)
    } else if n == 6 {
        Some(RelayMsgKind::GRANT)
    } else if n == 7 {
        Some(RelayMsgKind::GRANT_INFO)
    } else if n == 8 {
        Some(RelayMsgKind::RETRACT)
    } else if n == 9 {
        Some(RelayMsgKind::RETRACT_INFO)
    } else if n == 10 {
        Some(RelayMsgKind::RETRACT_REPLY)
    } else {
        None
    }
}

/// Writing a control kind and reading the number back gives the kind.
pub proof fn lemma_relay_msg_kind_round_trip(k: RelayMsgKind)
    ensures
        spec_relay_msg_kind(spec_relay_msg_num(k)) == Some(k),
{
}

/// The exec counterpart of `spec_relay_msg_num`.
fn relay_msg_num(k: RelayMsgKind) -> (r: u32)
    ensures
        r == spec_relay_msg_num(k),
{
    match k {
        RelayMsgKind::JOIN => 0,
        RelayMsgKind::LEAVE => 1,
        RelayMsgKind::ACCEPT => 2,
        RelayMsgKind::REJECT => 3,
        RelayMsgKind::MERGE => 4,
        RelayMsgKind::MERGE_CHECK => 5,
        RelayMsgKind::GRANT => 6,
        RelayMsgKind::GRANT_INFO => 7,
        RelayMsgKind::RETRACT => 8,
        RelayMsgKind::RETRACT_INFO => 9,
        RelayMsgKind::RETRACT_REPLY => 10,
    }
}

/// The mathematical value of a control message.
pub ghost struct RelayCtlMessageView {
    pub kind: RelayMsgKind,
    pub id: u64,
    pub payload: Seq<u8>,
}

/// The wire form of a control message.
pub open spec fn spec_ctl_body(m: RelayCtlMessageView) -> Seq<u8> {
    spec_u32_be(spec_relay_msg_num(m.kind)) + spec_u64_be(m.id) + m.payload
}

/// The control message a buffer decodes to: `None` when it is shorter than
/// its fixed fields or its kind is unknown.
pub open spec fn spec_decode_ctl(b: Seq<u8>) -> Option<RelayCtlMessageView> {
    if b.len() < 12 {
        None
    } else {
        match spec_relay_msg_kind(spec_u32_from_be(b[0], b[1], b[2], b[3])) {
            Some(kind) => Some(
                RelayCtlMessageView {
                    kind,
                    id: spec_u64_from_be(b[4], b[5], b[6], b[7], b[8], b[9], b[10], b[11]),
                    payload: b.subrange(12, b.len() as int),
                },
            ),
            None => None,
        }
    }
}

/// Control-message round trip: every control message decodes, from its own
/// encoding, back to itself.
pub proof fn lemma_ctl_round_trip(m: RelayCtlMessageView)
    ensures
        spec_decode_ctl(spec_ctl_body(m)) == Some(m),
{
    let b = spec_ctl_body(m);
    crate::codec::lemma_u32_be_round_trip(spec_relay_msg_num(m.kind));
    crate::codec::lemma_u64_be_round_trip(m.id);
    let d = spec_decode_ctl(b)->Some_0;
    assert(d.kind == m.kind);
    assert(d.id == m.id);
    assert(d.payload =~= m.payload);
}

/// One relay-control message: its kind, this node's sequence number for it,
/// and the kind's payload bytes.
#[derive(Debug)]
pub struct RelayCtlMessage {
    msg_type: RelayMsgKind,
    msg_id: u64,
    payload: Vec<u8>,
}

impl View for RelayCtlMessage {
    type V = RelayCtlMessageView;

    closed spec fn view(&self) -> RelayCtlMessageView {
        RelayCtlMessageView { kind: self.msg_type, id: self.msg_id, payload: self.payload@ }
    }
}

impl Clone for RelayCtlMessage {
    /// A cloned control message stands for the same record.
    fn clone(&self) -> (r: Self)
        ensures
            r@ == self@,
    {
        let r = RelayCtlMessage {
            msg_type: self.msg_type,
            msg_id: self.msg_id,
            payload: self.payload.clone(),
        };
        proof {
            assert(r@.payload =~= self@.payload);
        }
        r
    }
}

impl RelayCtlMessage {
    pub fn new(msg_type: RelayMsgKind, msg_id: u64, payload: Vec<u8>) -> (r: Self)
        ensures
            r@ == (RelayCtlMessageView { kind: msg_type, id: msg_id, payload: payload@ }),
    {
        Self { msg_type, msg_id, payload }
    }

    /// The message's kind.
    pub fn msg_type(&self) -> (r: RelayMsgKind)
        ensures
            r == self@.kind,
    {
        self.msg_type
    }

    /// The sender's sequence number for this message.
    pub fn msg_id(&self) -> (r: u64)
        ensures
            r == self@.id,
    {
        self.msg_id
    }

    /// The kind's payload bytes.
    pub fn payload(&self) -> (r: Vec<u8>)
        ensures
            r@ == self@.payload,
    {
        self.payload.clone()
    }

    /// An ACCEPT of this message, under a fresh sequence number: its payload
    /// acknowledges this message's id.
    pub fn accept(&self, seq: u64) -> (r: Self)
        ensures
            r@.kind == RelayMsgKind::ACCEPT,
            r@.id == seq,
            r@.payload == spec_u64_be(self@.id),
    {
        Self::new(RelayMsgKind::ACCEPT, seq, RelayMsgAccept::new(self).into_bytes())
    }

    /// A REJECT of this message, under a fresh sequence number: its payload
    /// acknowledges this message's id.
    pub fn reject(&self, seq: u64) -> (r: Self)
        ensures
            r@.kind == RelayMsgKind::REJECT,
            r@.id == seq,
            r@.payload == spec_u64_be(self@.id),
    {
        Self::new(RelayMsgKind::REJECT, seq, RelayMsgReject::new(self).into_bytes())
    }

    /// Encode the message for the wire.
    pub fn into_bytes(&self) -> (r: Result<Vec<u8>, SerializeError>)
        ensures
            r is Ok,
            r matches Ok(bytes) ==> bytes@ == spec_ctl_body(self@),
    {
        let mut buf: Vec<u8> = Vec::new();
        push_u32_be(&mut buf, relay_msg_num(self.msg_type));
        push_u64_be(&mut buf, self.msg_id);
        buf.extend_from_slice(self.payload.as_slice());
        proof {
            assert(buf@ =~= spec_ctl_body(self@));
        }
        Ok(buf)
    }

    /// Decode one control message. Fails exactly on a buffer shorter than
    /// the fixed fields or an unknown kind.
    pub fn from_bytes(buf: &[u8]) -> (r: Result<Self, DeserializeError>)
        ensures
            match r {
                Ok(m) => spec_decode_ctl(buf@) == Some(m@),
                Err(_) => spec_decode_ctl(buf@) is None,
            },
    {
        if buf.len() < 12 {
            return Err(DeserializeError::new("control message is truncated"));
        }
        let kind_num = read_u32_be(buf, 0);
        let msg_id = read_u64_be(buf, 4);
        let payload = vstd::slice::slice_to_vec(
            vstd::slice::slice_subrange(buf, 12, buf.len()),
        );
        let kind = if kind_num == 0 {
            RelayMsgKind::JOIN
        } else if kind_num == 1 {
            RelayMsgKind::LEAVE
        } else if kind_num == 2 {
            RelayMsgKind::ACCEPT
        } else if kind_num == 3 {
            RelayMsgKind::REJECT
        } else if kind_num == 4 {
            RelayMsgKind::MERGE
        } else if kind_num == 5 {
            RelayMsgKind::MERGE_CHECK
        } else if kind_num == 6 {
            RelayMsgKind::GRANT
        } else if kind_num == 7 {
            RelayMsgKind::GRANT_INFO
        } else if kind_num == 8 {
            RelayMsgKind::RETRACT
        } else if kind_num == 9 {
            RelayMsgKind::RETRACT_INFO
        } else if kind_num == 10 {
            RelayMsgKind::RETRACT_REPLY
        } else {
            return Err(DeserializeError::new("decode msg type error"));
        };
        Ok(Self { msg_type: kind, msg_id, payload })
    }
}

/// A request to join the tree rooted at `src`.
#[derive(Debug)]
pub struct RelayMsgJoin {
    src: Peer,
}

impl RelayMsgJoin {
    pub fn new(src: Peer) -> (r: Self)
        ensures
            r.src_spec() == src@,
    {
        Self { src }
    }

    /// The root of the tree to join.
    pub closed spec fn src_spec(&self) -> Seq<u8> {
        self.src@
    }

    /// The root of the tree to join.
    pub fn src(&self) -> (r: &Peer)
        ensures
            r@ == self.src_spec(),
    {
        &self.src
    }

    /// Encode: exactly the 32 source id bytes.
    pub fn into_bytes(&self) -> (r: Result<Vec<u8>, SerializeError>)
        ensures
            r is Ok,
            r matches Ok(bytes) ==> bytes@ == self.src_spec(),
    {
        Ok(self.src.get_id())
    }

    /// Decode: accepted exactly when the payload is one whole peer id.
    pub fn from_bytes(buf: &[u8]) -> (r: Result<Self, DeserializeError>)
        ensures
            match r {
                Ok(m) => buf@.len() == PEER_ID_SIZE && m.src_spec() == buf@,
                Err(_) => buf@.len() != PEER_ID_SIZE,
            },
    {
        match Peer::try_from_id(buf) {
            Ok(peer) => Ok(Self { src: peer }),
            Err(_) => Err(DeserializeError::new("join payload is not one peer id")),
        }
    }
}

/// Notice that the sender leaves the tree rooted at `src`.
#[derive(Debug)]
pub struct RelayMsgLeave {
    src: Peer,
}

impl RelayMsgLeave {
    pub fn new(src: &Peer) -> (r: Self)
        ensures
            r.src_spec() == src@,
    {
        Self { src: src.clone() }
    }

    /// The root of the tree being left.
    pub closed spec fn src_spec(&self) -> Seq<u8> {
        self.src@
    }

    /// The root of the tree being left.
    pub fn src(&self) -> (r: &Peer)
        ensures
            r@ == self.src_spec(),
    {
        &self.src
    }

    /// Encode: exactly the 32 source id bytes.
    pub fn into_bytes(&self) -> (r: Result<Vec<u8>, SerializeError>)
        ensures
            r is Ok,
            r matches Ok(bytes) ==> bytes@ == self.src_spec(),
    {
        Ok(self.src.get_id())
    }

    /// Decode: accepted exactly when the payload is one whole peer id.
    pub fn from_bytes(buf: &[u8]) -> (r: Result<Self, DeserializeError>)
        ensures
            match r {
                Ok(m) => buf@.len() == PEER_ID_SIZE && m.src_spec() == buf@,
                Err(_) => buf@.len() != PEER_ID_SIZE,
            },
    {
        match Peer::try_from_id(buf) {
            Ok(peer) => Ok(Self { src: peer }),
            Err(_) => Err(DeserializeError::new("leave payload is not one peer id")),
        }
    }
}

/// Agreement to a prior request, named by its sequence number.
#[derive(Debug)]
pub struct RelayMsgAccept {
    ack: u64,
}

impl RelayMsgAccept {
    /// Answer the given incoming message.
    pub fn new(income: &RelayCtlMessage) -> (r: Self)
        ensures
            r.ack_spec() == income@.id,
    {
        Self { ack: income.msg_id() }
    }

    /// Answer the request with this sequence number.
    pub fn from_id(id: u64) -> (r: Self)
        ensures
            r.ack_spec() == id,
    {
        Self { ack: id }
    }

    /// The sequence number being agreed to.
    pub closed spec fn ack_spec(&self) -> u64 {
        self.ack
    }

    /// The sequence number being agreed to.
    pub fn ack(&self) -> (r: u64)
        ensures
            r == self.ack_spec(),
    {
        self.ack
    }

    /// Encode: exactly the eight big-endian bytes of the answered id.
    pub fn into_bytes(&self) -> (r: Vec<u8>)
        ensures
            r@ == spec_u64_be(self.ack_spec()),
    {
        let mut buf: Vec<u8> = Vec::new();
        push_u64_be(&mut buf, self.ack);
        buf
    }

    /// Decode: accepted exactly when the payload is eight bytes.
    pub fn from_bytes(buf: &[u8]) -> (r: Result<Self, DeserializeError>)
        ensures
            match r {
                Ok(m) => buf@.len() == 8 && m.ack_spec() == spec_u64_from_be(
                    buf@[0],
                    buf@[1],
                    buf@[2],
                    buf@[3],
                    buf@[4],
                    buf@[5],
                    buf@[6],
                    buf@[7],
                ),
                Err(_) => buf@.len() != 8,
            },
    {
        if buf.len() == 8 {
            Ok(Self { ack: read_u64_be(buf, 0) })
        } else {
            Err(DeserializeError::new("accept payload is not one message id"))
        }
    }
}

/// Refusal of a prior request, named by its sequence number.
#[derive(Debug)]
pub struct RelayMsgReject {
    ack: u64,
}

impl RelayMsgReject {
    /// Answer the given incoming message.
    pub fn new(income: &RelayCtlMessage) -> (r: Self)
        ensures
            r.ack_spec() == income@.id,
    {
        Self { ack: income.msg_id() }
    }

    /// Answer the request with this sequence number.
    pub fn from_id(id: u64) -> (r: Self)
        ensures
            r.ack_spec() == id,
    {
        Self { ack: id }
    }

    /// The sequence number being refused.
    pub closed spec fn ack_spec(&self) -> u64 {
        self.ack
    }

    /// The sequence number being refused.
    pub fn ack(&self) -> (r: u64)
        ensures
            r == self.ack_spec(),
    {
        self.ack
    }

    /// Encode: exactly the eight big-endian bytes of the answered id.
    pub fn into_bytes(&self) -> (r: Vec<u8>)
        ensures
            r@ == spec_u64_be(self.ack_spec()),
    {
        let mut buf: Vec<u8> = Vec::new();
        push_u64_be(&mut buf, self.ack);
        buf
    }

    /// Decode: accepted exactly when the payload is eight bytes.
    pub fn from_bytes(buf: &[u8]) -> (r: Result<Self, DeserializeError>)
        ensures
            match r {
                Ok(m) => buf@.len() == 8 && m.ack_spec() == spec_u64_from_be(
                    buf@[0],
                    buf@[1],
                    buf@[2],
                    buf@[3],
                    buf@[4],
                    buf@[5],
                    buf@[6],
                    buf@[7],
                ),
                Err(_) => buf@.len() != 8,
            },
    {
        if buf.len() == 8 {
            Ok(Self { ack: read_u64_be(buf, 0) })
        } else {
            Err(DeserializeError::new("reject payload is not one message id"))
        }
    }
}

/// A proposal to unify two roots of one logical source: the sender's weight,
/// its merge threshold, and the source.
#[derive(Debug)]
pub struct RelayMsgMerge {
    weight: u64,
    merge_thrd: u64,
    src: Peer,
}

/// The wire form of a merge proposal.
pub open spec fn spec_merge_body(weight: u64, thrd: u64, src: Seq<u8>) -> Seq<u8> {
    spec_u64_be(weight) + spec_u64_be(thrd) + src
}

/// The fields a merge payload decodes to: weight, threshold, source id;
/// `None` exactly when the size is wrong.
pub open spec fn spec_decode_merge(b: Seq<u8>) -> Option<(u64, u64, Seq<u8>)> {
    if b.len() != 16 + PEER_ID_SIZE {
        None
    } else {
        Some(
            (
                spec_u64_from_be(b[0], b[1], b[2], b[3], b[4], b[5], b[6], b[7]),
                spec_u64_from_be(b[8], b[9], b[10], b[11], b[12], b[13], b[14], b[15]),
                b.subrange(16, 48),
            ),
        )
    }
}

impl RelayMsgMerge {
    pub fn new(weight: u64, merge_thrd: u64, src: Peer) -> (r: Self)
        ensures
            r.weight_spec() == weight,
            r.merge_thrd_spec() == merge_thrd,
            r.src_spec() == src@,
    {
        Self { weight, merge_thrd, src }
    }

    /// The sender's relay weight for the source.
    pub closed spec fn weight_spec(&self) -> u64 {
        self.weight
    }

    /// The sender's merge threshold.
    pub closed spec fn merge_thrd_spec(&self) -> u64 {
        self.merge_thrd
    }

    /// The source whose roots would unify.
    pub closed spec fn src_spec(&self) -> Seq<u8> {
        self.src@
    }

    pub fn weight(&self) -> (r: u64)
        ensures
            r == self.weight_spec(),
    {
        self.weight
    }

    pub fn merge_thrd(&self) -> (r: u64)
        ensures
            r == self.merge_thrd_spec(),
    {
        self.merge_thrd
    }

    pub fn src(&self) -> (r: &Peer)
        ensures
            r@ == self.src_spec(),
    {
        &self.src
    }

    /// Encode: weight, threshold, then the source id.
    pub fn into_bytes(&self) -> (r: Result<Vec<u8>, SerializeError>)
        ensures
            r is Ok,
            r matches Ok(bytes) ==> bytes@ == spec_merge_body(
                self.weight_spec(),
                self.merge_thrd_spec(),
                self.src_spec(),
            ),
    {
        let mut buf: Vec<u8> = Vec::new();
        push_u64_be(&mut buf, self.weight);
        push_u64_be(&mut buf, self.merge_thrd);
        let src = self.src.get_id();
        buf.extend_from_slice(src.as_slice());
        proof {
            assert(buf@ =~= spec_merge_body(
                self.weight_spec(),
                self.merge_thrd_spec(),
                self.src_spec(),
            ));
        }
        Ok(buf)
    }

    /// Decode: accepted exactly when the payload is two eight-byte fields
    /// and one whole peer id.
    pub fn from_bytes(buf: &[u8]) -> (r: Result<Self, DeserializeError>)
        ensures
            match r {
                Ok(m) => buf@.len() == 16 + PEER_ID_SIZE && buf@ == spec_merge_body(
                    m.weight_spec(),
                    m.merge_thrd_spec(),
                    m.src_spec(),
                ) && spec_decode_merge(buf@) == Some(
                    (m.weight_spec(), m.merge_thrd_spec(), m.src_spec()),
                ),
                Err(_) => spec_decode_merge(buf@) is None,
            },
    {
        if buf.len() != 16 + PEER_ID_SIZE {
            return Err(DeserializeError::new("merge payload has the wrong size"));
        }
        let weight = read_u64_be(buf, 0);
        let merge_thrd = read_u64_be(buf, 8);
        let src_bytes = vstd::slice::slice_subrange(buf, 16, buf.len());
        match Peer::try_from_id(src_bytes) {
            Ok(src) => {
                let m = Self { weight, merge_thrd, src };
                proof {
                    crate::codec::lemma_u64_from_be_to_be(
                        buf@[0],
                        buf@[1],
                        buf@[2],
                        buf@[3],
                        buf@[4],
                        buf@[5],
                        buf@[6],
                        buf@[7],
                    );
                    crate::codec::lemma_u64_from_be_to_be(
                        buf@[8],
                        buf@[9],
                        buf@[10],
                        buf@[11],
                        buf@[12],
                        buf@[13],
                        buf@[14],
                        buf@[15],
                    );
                    assert(buf@ =~= spec_merge_body(
                        m.weight_spec(),
                        m.merge_thrd_spec(),
                        m.src_spec(),
                    ));
                }
                Ok(m)
            },
            Err(_) => Err(DeserializeError::new("merge payload has no valid source id")),
        }
    }
}

/// A probe that the root still wants a pending merge, carrying the weight to
/// compare.
#[derive(Debug)]
pub struct RelayMsgMergeCheck {
    weight: u64,
}

impl RelayMsgMergeCheck {
    pub fn new(weight: u64) -> (r: Self)
        ensures
            r.weight_spec() == weight,
    {
        Self { weight }
    }

    /// The weight the root should compare against its own.
    pub closed spec fn weight_spec(&self) -> u64 {
        self.weight
    }

    pub fn weight(&self) -> (r: u64)
        ensures
            r == self.weight_spec(),
    {
        self.weight
    }

    /// Encode: exactly the eight big-endian weight bytes.
    pub fn into_bytes(&self) -> (r: Result<Vec<u8>, SerializeError>)
        ensures
            r is Ok,
            r matches Ok(bytes) ==> bytes@ == spec_u64_be(self.weight_spec()),
    {
        let mut buf: Vec<u8> = Vec::new();
        push_u64_be(&mut buf, self.weight);
        Ok(buf)
    }

    /// Decode: accepted exactly when the payload is eight bytes.
    pub fn from_bytes(buf: &[u8]) -> (r: Result<Self, DeserializeError>)
        ensures
            match r {
                Ok(m) => buf@.len() == 8 && m.weight_spec() == spec_u64_from_be(
                    buf@[0],
                    buf@[1],
                    buf@[2],
                    buf@[3],
                    buf@[4],
                    buf@[5],
                    buf@[6],
                    buf@[7],
                ),
                Err(_) => buf@.len() != 8,
            },
    {
        if buf.len() == 8 {
            Ok(Self { weight: read_u64_be(buf, 0) })
        } else {
            Err(DeserializeError::new("merge check payload is not one weight"))
        }
    }
}

/// A proposal to hand the child `target` over to the receiver, with the
/// sender's src-interval for the tree.
#[derive(Debug)]
pub struct RelayMsgGrant {
    target_id: Peer,
    src_inv: u64,
    src_id: Peer,
}

/// The wire form of a grant proposal.
pub open spec fn spec_grant_body(target: Seq<u8>, src_inv: u64, src: Seq<u8>) -> Seq<u8> {
    target + spec_u64_be(src_inv) + src
}

/// The fields a grant payload decodes to: the child, the interval, the
/// source id; `None` exactly when the size is wrong.
pub open spec fn spec_decode_grant(b: Seq<u8>) -> Option<(Seq<u8>, u64, Seq<u8>)> {
    if b.len() != 8 + 2 * PEER_ID_SIZE {
        None
    } else {
        Some(
            (
                b.subrange(0, 32),
                spec_u64_from_be(b[32], b[33], b[34], b[35], b[36], b[37], b[38], b[39]),
                b.subrange(40, 72),
            ),
        )
    }
}

impl RelayMsgGrant {
    pub fn new(target_id: Peer, src_inv: u64, src_id: Peer) -> (r: Self)
        ensures
            r.target_id_spec() == target_id@,
            r.src_inv_spec() == src_inv,
            r.src_id_spec() == src_id@,
    {
        Self { target_id, src_inv, src_id }
    }

    /// The child to hand over.
    pub closed spec fn target_id_spec(&self) -> Seq<u8> {
        self.target_id@
    }

    /// The sender's src-interval for the tree.
    pub closed spec fn src_inv_spec(&self) -> u64 {
        self.src_inv
    }

    /// The tree's source.
    pub closed spec fn src_id_spec(&self) -> Seq<u8> {
        self.src_id@
    }

    pub fn target_id(&self) -> (r: &Peer)
        ensures
            r@ == self.target_id_spec(),
    {
        &self.target_id
    }

    pub fn src_inv(&self) -> (r: u64)
        ensures
            r == self.src_inv_spec(),
    {
        self.src_inv
    }

    pub fn src_id(&self) -> (r: &Peer)
        ensures
            r@ == self.src_id_spec(),
    {
        &self.src_id
    }

    /// Encode: the child id, the interval, then the source id.
    pub fn into_bytes(&self) -> (r: Result<Vec<u8>, SerializeError>)
        ensures
            r is Ok,
            r matches Ok(bytes) ==> bytes@ == spec_grant_body(
                self.target_id_spec(),
                self.src_inv_spec(),
                self.src_id_spec(),
            ),
    {
        let mut buf: Vec<u8> = self.target_id.get_id();
        push_u64_be(&mut buf, self.src_inv);
        let src = self.src_id.get_id();
        buf.extend_from_slice(src.as_slice());
        proof {
            assert(buf@ =~= spec_grant_body(
                self.target_id_spec(),
                self.src_inv_spec(),
                self.src_id_spec(),
            ));
        }
        Ok(buf)
    }

    /// Decode: accepted exactly when the payload is two whole peer ids
    /// around one eight-byte field.
    pub fn from_bytes(buf: &[u8]) -> (r: Result<Self, DeserializeError>)
        ensures
            match r {
                Ok(m) => buf@.len() == 8 + 2 * PEER_ID_SIZE && buf@ == spec_grant_body(
                    m.target_id_spec(),
                    m.src_inv_spec(),
                    m.src_id_spec(),
                ) && spec_decode_grant(buf@) == Some(
                    (m.target_id_spec(), m.src_inv_spec(), m.src_id_spec()),
                ),
                Err(_) => spec_decode_grant(buf@) is None,
            },
    {
        if buf.len() != 8 + 2 * PEER_ID_SIZE {
            return Err(DeserializeError::new("grant payload has the wrong size"));
        }
        let target_bytes = vstd::slice::slice_subrange(buf, 0, PEER_ID_SIZE);
        let src_inv = read_u64_be(buf, PEER_ID_SIZE);
        let src_bytes = vstd::slice::slice_subrange(buf, PEER_ID_SIZE + 8, buf.len());
        let target_id = match Peer::try_from_id(target_bytes) {
            Ok(p) => p,
            Err(_) => {
                return Err(DeserializeError::new("grant payload has no valid target id"));
            },
        };
        match Peer::try_from_id(src_bytes) {
            Ok(src_id) => {
                let m = Self { target_id, src_inv, src_id };
                proof {
                    crate::codec::lemma_u64_from_be_to_be(
                        buf@[32],
                        buf@[33],
                        buf@[34],
                        buf@[35],
                        buf@[36],
                        buf@[37],
                        buf@[38],
                        buf@[39],
                    );
                    assert(buf@ =~= spec_grant_body(
                        m.target_id_spec(),
                        m.src_inv_spec(),
                        m.src_id_spec(),
                    ));
                }
                Ok(m)
            },
            Err(_) => Err(DeserializeError::new("grant payload has no valid source id")),
        }
    }
}

/// Word to a granted child that it should re-join toward a new parent.
#[derive(Debug)]
pub struct RelayMsgGrantInfo {
    src_id: Peer,
}

impl RelayMsgGrantInfo {
    pub fn new(src_id: Peer) -> (r: Self)
        ensures
            r.src_id_spec() == src_id@,
    {
        Self { src_id }
    }

    /// The tree's source.
    pub closed spec fn src_id_spec(&self) -> Seq<u8> {
        self.src_id@
    }

    pub fn src_id(&self) -> (r: &Peer)
        ensures
            r@ == self.src_id_spec(),
    {
        &self.src_id
    }

    /// Encode: exactly the 32 source id bytes.
    pub fn into_bytes(&self) -> (r: Result<Vec<u8>, SerializeError>)
        ensures
            r is Ok,
            r matches Ok(bytes) ==> bytes@ == self.src_id_spec(),
    {
        Ok(self.src_id.get_id())
    }

    /// Decode: accepted exactly when the payload is one whole peer id.
    pub fn from_bytes(buf: &[u8]) -> (r: Result<Self, DeserializeError>)
        ensures
            match r {
                Ok(m) => buf@.len() == PEER_ID_SIZE && m.src_id_spec() == buf@,
                Err(_) => buf@.len() != PEER_ID_SIZE,
            },
    {
        match Peer::try_from_id(buf) {
            Ok(peer) => Ok(Self { src_id: peer }),
            Err(_) => Err(DeserializeError::new("grant info payload is not one peer id")),
        }
    }
}

/// A request that the receiver give up one child of the tree.
#[derive(Debug)]
pub struct RelayMsgRetract {
    src_id: Peer,
    src_inv: u64,
}

/// The wire form of a retract request.
pub open spec fn spec_retract_body(src: Seq<u8>, src_inv: u64) -> Seq<u8> {
    src + spec_u64_be(src_inv)
}

impl RelayMsgRetract {
    pub fn new(src_id: Peer, src_inv: u64) -> (r: Self)
        ensures
            r.src_id_spec() == src_id@,
            r.src_inv_spec() == src_inv,
    {
        Self { src_id, src_inv }
    }

    /// The tree's source.
    pub closed spec fn src_id_spec(&self) -> Seq<u8> {
        self.src_id@
    }

    /// The sender's src-interval for the tree.
    pub closed spec fn src_inv_spec(&self) -> u64 {
        self.src_inv
    }

    pub fn src_id(&self) -> (r: &Peer)
        ensures
            r@ == self.src_id_spec(),
    {
        &self.src_id
    }

    pub fn src_inv(&self) -> (r: u64)
        ensures
            r == self.src_inv_spec(),
    {
        self.src_inv
    }

    /// Encode: the source id, then the interval.
    pub fn into_bytes(&self) -> (r: Result<Vec<u8>, SerializeError>)
        ensures
            r is Ok,
            r matches Ok(bytes) ==> bytes@ == spec_retract_body(
                self.src_id_spec(),
                self.src_inv_spec(),
            ),
    {
        let mut buf: Vec<u8> = self.src_id.get_id();
        push_u64_be(&mut buf, self.src_inv);
        proof {
            assert(buf@ =~= spec_retract_body(self.src_id_spec(), self.src_inv_spec()));
        }
        Ok(buf)
    }

    /// Decode: accepted exactly when the payload is one whole peer id and
    /// one eight-byte field.
    pub fn from_bytes(buf: &[u8]) -> (r: Result<Self, DeserializeError>)
        ensures
            match r {
                Ok(m) => buf@.len() == PEER_ID_SIZE + 8 && buf@ == spec_retract_body(
                    m.src_id_spec(),
                    m.src_inv_spec(),
                ),
                Err(_) => buf@.len() != PEER_ID_SIZE + 8,
            },
    {
        if buf.len() != PEER_ID_SIZE + 8 {
            return Err(DeserializeError::new("retract payload has the wrong size"));
        }
        let src_bytes = vstd::slice::slice_subrange(buf, 0, PEER_ID_SIZE);
        let src_inv = read_u64_be(buf, PEER_ID_SIZE);
        match Peer::try_from_id(src_bytes) {
            Ok(src_id) => {
                let m = Self { src_id, src_inv };
                proof {
                    crate::codec::lemma_u64_from_be_to_be(
                        buf@[32],
                        buf@[33],
                        buf@[34],
                        buf@[35],
                        buf@[36],
                        buf@[37],
                        buf@[38],
                        buf@[39],
                    );
                    assert(buf@ =~= spec_retract_body(m.src_id_spec(), m.src_inv_spec()));
                }
                Ok(m)
            },
            Err(_) => Err(DeserializeError::new("retract payload has no valid source id")),
        }
    }
}

/// Answer to a retract request, naming the child given up.
#[derive(Debug)]
pub struct RelayMsgRetractReply {
    src_id: Peer,
    target_id: Peer,
    src_inv: u64,
}

/// The wire form of a retract reply.
pub open spec fn spec_retract_reply_body(src: Seq<u8>, target: Seq<u8>, src_inv: u64) -> Seq<u8> {
    src + target + spec_u64_be(src_inv)
}

impl RelayMsgRetractReply {
    pub fn new(src_id: Peer, target_id: Peer, src_inv: u64) -> (r: Self)
        ensures
            r.src_id_spec() == src_id@,
            r.target_id_spec() == target_id@,
            r.src_inv_spec() == src_inv,
    {
        Self { src_id, target_id, src_inv }
    }

    /// The tree's source.
    pub closed spec fn src_id_spec(&self) -> Seq<u8> {
        self.src_id@
    }

    /// The child being given up.
    pub closed spec fn target_id_spec(&self) -> Seq<u8> {
        self.target_id@
    }

    /// The sender's src-interval for the tree.
    pub closed spec fn src_inv_spec(&self) -> u64 {
        self.src_inv
    }

    pub fn src_id(&self) -> (r: &Peer)
        ensures
            r@ == self.src_id_spec(),
    {
        &self.src_id
    }

    pub fn target_id(&self) -> (r: &Peer)
        ensures
            r@ == self.target_id_spec(),
    {
        &self.target_id
    }

    pub fn src_inv(&self) -> (r: u64)
        ensures
            r == self.src_inv_spec(),
    {
        self.src_inv
    }

    /// Encode: the source id, the child id, then the interval.
    pub fn into_bytes(&self) -> (r: Result<Vec<u8>, SerializeError>)
        ensures
            r is Ok,
            r matches Ok(bytes) ==> bytes@ == spec_retract_reply_body(
                self.src_id_spec(),
                self.target_id_spec(),
                self.src_inv_spec(),
            ),
    {
        let mut buf: Vec<u8> = self.src_id.get_id();
        let target = self.target_id.get_id();
        buf.extend_from_slice(target.as_slice());
        push_u64_be(&mut buf, self.src_inv);
        proof {
            assert(buf@ =~= spec_retract_reply_body(
                self.src_id_spec(),
                self.target_id_spec(),
                self.src_inv_spec(),
            ));
        }
        Ok(buf)
    }

    /// Decode: accepted exactly when the payload is two whole peer ids and
    /// one eight-byte field.
    pub fn from_bytes(buf: &[u8]) -> (r: Result<Self, DeserializeError>)
        ensures
            match r {
                Ok(m) => buf@.len() == 2 * PEER_ID_SIZE + 8 && buf@ == spec_retract_reply_body(
                    m.src_id_spec(),
                    m.target_id_spec(),
                    m.src_inv_spec(),
                ),
                Err(_) => buf@.len() != 2 * PEER_ID_SIZE + 8,
            },
    {
        if buf.len() != 2 * PEER_ID_SIZE + 8 {
            return Err(DeserializeError::new("retract reply payload has the wrong size"));
        }
        let src_bytes = vstd::slice::slice_subrange(buf, 0, PEER_ID_SIZE);
        let target_bytes = vstd::slice::slice_subrange(buf, PEER_ID_SIZE, 2 * PEER_ID_SIZE);
        let src_inv = read_u64_be(buf, 2 * PEER_ID_SIZE);
        let src_id = match Peer::try_from_id(src_bytes) {
            Ok(p) => p,
            Err(_) => {
                return Err(DeserializeError::new("retract reply has no valid source id"));
            },
        };
        match Peer::try_from_id(target_bytes) {
            Ok(target_id) => {
                let m = Self { src_id, target_id, src_inv };
                proof {
                    crate::codec::lemma_u64_from_be_to_be(
                        buf@[64],
                        buf@[65],
                        buf@[66],
                        buf@[67],
                        buf@[68],
                        buf@[69],
                        buf@[70],
                        buf@[71],
                    );
                    assert(buf@ =~= spec_retract_reply_body(
                        m.src_id_spec(),
                        m.target_id_spec(),
                        m.src_inv_spec(),
                    ));
                }
                Ok(m)
            },
            Err(_) => Err(DeserializeError::new("retract reply has no valid target id")),
        }
    }
}

/// Word to a retracted child's new parent, mirroring the grant info step.
#[derive(Debug)]
pub struct RelayMsgRetractInfo {
    src_id: Peer,
    src_inv: u64,
}

impl RelayMsgRetractInfo {
    pub fn new(src_id: Peer, src_inv: u64) -> (r: Self)
        ensures
            r.src_id_spec() == src_id@,
            r.src_inv_spec() == src_inv,
    {
        Self { src_id, src_inv }
    }

    /// The tree's source.
    pub closed spec fn src_id_spec(&self) -> Seq<u8> {
        self.src_id@
    }

    /// The sender's src-interval for the tree.
    pub closed spec fn src_inv_spec(&self) -> u64 {
        self.src_inv
    }

    pub fn src_id(&self) -> (r: &Peer)
        ensures
            r@ == self.src_id_spec(),
    {
        &self.src_id
    }

    pub fn src_inv(&self) -> (r: u64)
        ensures
            r == self.src_inv_spec(),
    {
        self.src_inv
    }

    /// Encode: the source id, then the interval.
    pub fn into_bytes(&self) -> (r: Result<Vec<u8>, SerializeError>)
        ensures
            r is Ok,
            r matches Ok(bytes) ==> bytes@ == spec_retract_body(
                self.src_id_spec(),
                self.src_inv_spec(),
            ),
    {
        let mut buf: Vec<u8> = self.src_id.get_id();
        push_u64_be(&mut buf, self.src_inv);
        proof {
            assert(buf@ =~= spec_retract_body(self.src_id_spec(), self.src_inv_spec()));
        }
        Ok(buf)
    }

    /// Decode: accepted exactly when the payload is one whole peer id and
    /// one eight-byte field.
    pub fn from_bytes(buf: &[u8]) -> (r: Result<Self, DeserializeError>)
        ensures
            match r {
                Ok(m) => buf@.len() == PEER_ID_SIZE + 8 && buf@ == spec_retract_body(
                    m.src_id_spec(),
                    m.src_inv_spec(),
                ),
                Err(_) => buf@.len() != PEER_ID_SIZE + 8,
            },
    {
        if buf.len() != PEER_ID_SIZE + 8 {
            return Err(DeserializeError::new("retract info payload has the wrong size"));
        }
        let src_bytes = vstd::slice::slice_subrange(buf, 0, PEER_ID_SIZE);
        let src_inv = read_u64_be(buf, PEER_ID_SIZE);
        match Peer::try_from_id(src_bytes) {
            Ok(src_id) => {
                let m = Self { src_id, src_inv };
                proof {
                    crate::codec::lemma_u64_from_be_to_be(
                        buf@[32],
                        buf@[33],
                        buf@[34],
                        buf@[35],
                        buf@[36],
                        buf@[37],
                        buf@[38],
                        buf@[39],
                    );
                    assert(buf@ =~= spec_retract_body(m.src_id_spec(), m.src_inv_spec()));
                }
                Ok(m)
            },
            Err(_) => Err(DeserializeError::new("retract info has no valid source id")),
        }
    }
}

impl crate::utils::AsBytes for RelayCtlMessage {
    fn into_bytes(&self) -> Result<Vec<u8>, crate::error::SerializeError> {
        RelayCtlMessage::into_bytes(self)
    }

    fn from_bytes(buf: &[u8]) -> Result<Self, DeserializeError> {
        RelayCtlMessage::from_bytes(buf)
    }
}

} // verus!
