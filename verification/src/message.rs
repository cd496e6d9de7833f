//! The overlay message and its wire form.
//!
//! A message carries the bit-packed header, a send timestamp, the source,
//! upstream and destination peer ids, and an opaque payload. On the wire a
//! message is a two-byte big-endian length followed by the body; the body is
//! the canonical fixed-layout encoding of the record: header, timestamp, the
//! three 32-byte ids, then the payload.

use vstd::prelude::*;

use crate::MSG_MAXLEN;
use crate::codec::{
    lemma_u32_be_round_trip, lemma_u64_be_round_trip, push_u16_be, push_u32_be, push_u64_be,
    read_u16_be, read_u32_be, read_u64_be, spec_u16_be,
    spec_u16_from_be, spec_u32_be, spec_u32_from_be, spec_u64_be, spec_u64_from_be,
};
use crate::error::{BadFieldError, DeserializeError, SerializeError};
use crate::identity::{PEER_ID_SIZE, Peer};
use crate::msg_header;

verus! {

/// Bytes of body the fields before the payload always take: 4 of header,
/// 8 of timestamp, three ids of 32 bytes each.
pub const BODY_FIXED_LEN: usize = 108;

/// Longest payload an encoded message can carry: the frame holds a 2-byte
/// length prefix and the fixed body fields before the payload.
pub const MSG_PAYLOAD_MAXLEN: usize = 1938;

/// Relies on std's `SystemTime::now` and `duration_since`: nanoseconds since
/// the Unix epoch, or `None` when the clock reads earlier than the epoch.
/// Nothing is promised of the value.
#[verifier::external_body]
fn now_nanos_since_epoch() -> (r: Option<u64>)
{
    match std::time::SystemTime::now().duration_since(std::time::UNIX_EPOCH) {
        Ok(duration) => Some(duration.as_nanos() as u64),
        Err(_) => None,
    }
}

/// The mathematical value of an overlay message.
pub ghost struct OverlayMessageView {
    pub header: u32,
    pub timestamp: u64,
    pub src: Seq<u8>,
    pub from: Seq<u8>,
    pub dst: Seq<u8>,
    pub payload: Seq<u8>,
}

impl OverlayMessageView {
    /// Every id field holds exactly 32 bytes.
    pub open spec fn wf(self) -> bool {
        self.src.len() == PEER_ID_SIZE && self.from.len() == PEER_ID_SIZE && self.dst.len()
            == PEER_ID_SIZE
    }
}

/// The canonical body encoding of a message: header and timestamp big-endian,
/// then the three ids, then the payload.
pub open spec fn spec_body(m: OverlayMessageView) -> Seq<u8> {
    spec_u32_be(m.header) + spec_u64_be(m.timestamp) + m.src + m.from + m.dst + m.payload
}

/// The message a body decodes to: `None` exactly when the body is shorter
/// than its fixed fields.
pub open spec fn spec_decode_body(b: Seq<u8>) -> Option<OverlayMessageView> {
    if b.len() < BODY_FIXED_LEN {
        None
    } else {
        Some(
            OverlayMessageView {
                header: spec_u32_from_be(b[0], b[1], b[2], b[3]),
                timestamp: spec_u64_from_be(b[4], b[5], b[6], b[7], b[8], b[9], b[10], b[11]),
                src: b.subrange(12, 44),
                from: b.subrange(44, 76),
                dst: b.subrange(76, 108),
                payload: b.subrange(108, b.len() as int),
            },
        )
    }
}

/// The whole frame: the body's length as two big-endian bytes, then the body.
pub open spec fn spec_frame(m: OverlayMessageView) -> Seq<u8> {
    spec_u16_be(spec_body(m).len() as u16) + spec_body(m)
}

/// Frame round trip: every well-formed message whose payload fits a frame
/// decodes, from its own encoding, back to itself, field for field.
pub proof fn lemma_body_round_trip(m: OverlayMessageView)
    requires
        m.wf(),
    ensures
        spec_decode_body(spec_body(m)) == Some(m),
{
    let b = spec_body(m);
    assert(b.len() == BODY_FIXED_LEN + m.payload.len());
    lemma_u32_be_round_trip(m.header);
    lemma_u64_be_round_trip(m.timestamp);
    let d = spec_decode_body(b)->Some_0;
    assert forall|i: int| 0 <= i < 12 implies b[i] == (spec_u32_be(m.header) + spec_u64_be(
        m.timestamp,
    ))[i] by {}
    assert(d.header == m.header);
    assert(d.timestamp == m.timestamp);
    assert(d.src =~= m.src);
    assert(d.from =~= m.from);
    assert(d.dst =~= m.dst);
    assert(d.payload =~= m.payload);
}

/// A message of the overlay: control, measurement or payload.
#[derive(Debug)]
pub struct OverlayMessage {
    header: u32,
    timestamp: u64,
    src_id: Peer,
    from_id: Peer,
    dst_id: Peer,
    payload: Vec<u8>,
}

impl View for OverlayMessage {
    type V = OverlayMessageView;

    closed spec fn view(&self) -> OverlayMessageView {
        OverlayMessageView {
            header: self.header,
            timestamp: self.timestamp,
            src: self.src_id@,
            from: self.from_id@,
            dst: self.dst_id@,
            payload: self.payload@,
        }
    }
}

impl Clone for OverlayMessage {
    /// A cloned message stands for the same record.
    fn clone(&self) -> (r: Self)
        ensures
            r@ == self@,
    {
        let r = OverlayMessage {
            header: self.header,
            timestamp: self.timestamp,
            src_id: self.src_id.clone(),
            from_id: self.from_id.clone(),
            dst_id: self.dst_id.clone(),
            payload: self.payload.clone(),
        };
        proof {
            assert(r@.payload =~= self@.payload);
        }
        r
    }
}

impl OverlayMessage {
    /// A fresh message: the timestamp starts at zero and is filled at send
    /// time.
    pub fn new(header: u32, src_id: &Peer, from_id: &Peer, dst_id: &Peer, payload: &[u8]) -> (r:
        Self)
        ensures
            r@.header == header,
            r@.timestamp == 0,
            r@.src == src_id@,
            r@.from == from_id@,
            r@.dst == dst_id@,
            r@.payload == payload@,
    {
        Self {
            header,
            timestamp: 0,
            src_id: src_id.clone(),
            from_id: from_id.clone(),
            dst_id: dst_id.clone(),
            payload: vstd::slice::slice_to_vec(payload),
        }
    }

    /// The ids are well formed exactly when the peers they came from were.
    pub open spec fn wf(&self) -> bool {
        self@.wf()
    }

    /// The opaque payload bytes.
    pub fn payload(&self) -> (r: Vec<u8>)
        ensures
            r@ == self@.payload,
    {
        self.payload.clone()
    }

    /// Nanoseconds since the Unix epoch at which the message was stamped;
    /// zero until `set_timestamp_now` runs.
    pub fn timestamp(&self) -> (r: u64)
        ensures
            r == self@.timestamp,
    {
        self.timestamp
    }

    /// Stamp the message with the clock. Fails only when the clock reads
    /// before the Unix epoch; nothing else of the message changes.
    pub fn set_timestamp_now(&mut self) -> (r: Option<()>)
        ensures
            final(self)@.header == old(self)@.header,
            final(self)@.src == old(self)@.src,
            final(self)@.from == old(self)@.from,
            final(self)@.dst == old(self)@.dst,
            final(self)@.payload == old(self)@.payload,
            r is None ==> final(self)@.timestamp == old(self)@.timestamp,
    {
        match now_nanos_since_epoch() {
            Some(now) => {
                self.timestamp = now;
                Some(())
            },
            None => None,
        }
    }

    /// The root that originated the broadcast.
    pub fn src(&self) -> (r: Peer)
        ensures
            r@ == self@.src,
    {
        self.src_id.clone()
    }

    /// Set the originating root.
    pub fn set_src(&mut self, src: &Peer)
        ensures
            final(self)@ == (OverlayMessageView { src: src@, ..old(self)@ }),
    {
        self.src_id = src.clone();
    }

    /// The immediate upstream sender.
    pub fn from(&self) -> (r: Peer)
        ensures
            r@ == self@.from,
    {
        self.from_id.clone()
    }

    /// Set the immediate upstream sender.
    pub fn set_from(&mut self, from: &Peer)
        ensures
            final(self)@ == (OverlayMessageView { from: from@, ..old(self)@ }),
    {
        self.from_id = from.clone();
    }

    /// The terminal addressee, or the broadcast placeholder.
    pub fn dst(&self) -> (r: Peer)
        ensures
            r@ == self@.dst,
    {
        self.dst_id.clone()
    }

    /// Set the terminal addressee.
    pub fn set_dst(&mut self, dst: &Peer)
        ensures
            final(self)@ == (OverlayMessageView { dst: dst@, ..old(self)@ }),
    {
        self.dst_id = dst.clone();
    }

    /// The raw header word.
    pub fn header(&self) -> (r: u32)
        ensures
            r == self@.header,
    {
        self.header
    }

    /// Decode the message-type field; an out-of-range value is a bad field.
    pub fn get_type(&self) -> (r: Result<msg_header::MsgTypeKind, BadFieldError>)
        ensures
            match r {
                Ok(k) => msg_header::spec_msg_type_kind(msg_header::spec_msg_type(self@.header))
                    == Some(k),
                Err(_) => msg_header::spec_msg_type_kind(msg_header::spec_msg_type(self@.header))
                    is None,
            },
    {
        match msg_header::MsgType::get_msg_type(self.header) {
            Some(kind) => Ok(kind),
            None => Err(BadFieldError::new("unknown msg_type field")),
        }
    }

    /// Write the message-type field; every kind fits, so nothing else of the
    /// message changes.
    pub fn set_type(&mut self, msg_type: msg_header::MsgTypeKind)
        ensures
            msg_header::spec_msg_type(final(self)@.header) == msg_header::spec_msg_type_num(
                msg_type,
            ),
            msg_header::spec_relay_flag(final(self)@.header) == msg_header::spec_relay_flag(
                old(self)@.header,
            ),
            msg_header::spec_relay_method(final(self)@.header) == msg_header::spec_relay_method(
                old(self)@.header,
            ),
            msg_header::spec_fan_out(final(self)@.header) == msg_header::spec_fan_out(
                old(self)@.header,
            ),
            msg_header::spec_ttl(final(self)@.header) == msg_header::spec_ttl(old(self)@.header),
            final(self)@.timestamp == old(self)@.timestamp,
            final(self)@.src == old(self)@.src,
            final(self)@.from == old(self)@.from,
            final(self)@.dst == old(self)@.dst,
            final(self)@.payload == old(self)@.payload,
    {
        let _ = msg_header::MsgType::set_msg_type(&mut self.header, msg_type);
    }

    /// Decode the relay-method field; an out-of-range value is a bad field.
    pub fn get_relay_method(&self) -> (r: Result<msg_header::RelayMethodKind, BadFieldError>)
        ensures
            match r {
                Ok(k) => msg_header::spec_relay_method_kind(
                    msg_header::spec_relay_method(self@.header),
                ) == Some(k),
                Err(_) => msg_header::spec_relay_method_kind(
                    msg_header::spec_relay_method(self@.header),
                ) is None,
            },
    {
        match msg_header::RelayMethod::get_relay_method(self.header) {
            Some(kind) => Ok(kind),
            None => Err(BadFieldError::new("unknown relay_method field")),
        }
    }

    /// Write the relay-method field; every kind fits, so nothing else of the
    /// message changes.
    pub fn set_relay_method(&mut self, relay_method: msg_header::RelayMethodKind)
        ensures
            msg_header::spec_relay_method(final(self)@.header) == msg_header::spec_relay_method_num(
                relay_method,
            ),
            msg_header::spec_msg_type(final(self)@.header) == msg_header::spec_msg_type(
                old(self)@.header,
            ),
            msg_header::spec_relay_flag(final(self)@.header) == msg_header::spec_relay_flag(
                old(self)@.header,
            ),
            msg_header::spec_fan_out(final(self)@.header) == msg_header::spec_fan_out(
                old(self)@.header,
            ),
            msg_header::spec_ttl(final(self)@.header) == msg_header::spec_ttl(old(self)@.header),
            final(self)@.timestamp == old(self)@.timestamp,
            final(self)@.src == old(self)@.src,
            final(self)@.from == old(self)@.from,
            final(self)@.dst == old(self)@.dst,
            final(self)@.payload == old(self)@.payload,
    {
        let _ = msg_header::RelayMethod::set_relay_method(&mut self.header, relay_method);
    }

    /// Whether the relay flag asks for propagation along the relay tree.
    pub fn is_relay(&self) -> (r: bool)
        ensures
            r == msg_header::spec_relay_flag(self@.header),
    {
        msg_header::RelayFlag::get_relay_flag(self.header)
    }

    /// Write the relay flag; nothing else of the message changes.
    pub fn set_relay(&mut self, flag: bool)
        ensures
            msg_header::spec_relay_flag(final(self)@.header) == flag,
            msg_header::spec_msg_type(final(self)@.header) == msg_header::spec_msg_type(
                old(self)@.header,
            ),
            msg_header::spec_relay_method(final(self)@.header) == msg_header::spec_relay_method(
                old(self)@.header,
            ),
            msg_header::spec_fan_out(final(self)@.header) == msg_header::spec_fan_out(
                old(self)@.header,
            ),
            msg_header::spec_ttl(final(self)@.header) == msg_header::spec_ttl(old(self)@.header),
            final(self)@.timestamp == old(self)@.timestamp,
            final(self)@.src == old(self)@.src,
            final(self)@.from == old(self)@.from,
            final(self)@.dst == old(self)@.dst,
            final(self)@.payload == old(self)@.payload,
    {
        msg_header::RelayFlag::set_relay_flag(&mut self.header, flag);
    }

    /// The fanout hint.
    pub fn get_fanout(&self) -> (r: u32)
        ensures
            r == msg_header::spec_fan_out(self@.header),
    {
        msg_header::FanOut::get_fan_out(self.header)
    }

    /// Write the fanout hint. Fails with a field overflow exactly when the
    /// value needs more than eight bits, and then changes nothing.
    pub fn set_fanout(&mut self, fanout: u32) -> (r: Result<(), BadFieldError>)
        ensures
            r is Ok <==> fanout <= 0xFF,
            r is Err ==> *final(self) == *old(self),
            r is Ok ==> msg_header::spec_fan_out(final(self)@.header) == fanout
                && msg_header::spec_msg_type(final(self)@.header) == msg_header::spec_msg_type(
                old(self)@.header,
            ) && msg_header::spec_relay_flag(final(self)@.header) == msg_header::spec_relay_flag(
                old(self)@.header,
            ) && msg_header::spec_relay_method(final(self)@.header)
                == msg_header::spec_relay_method(old(self)@.header) && msg_header::spec_ttl(
                final(self)@.header,
            ) == msg_header::spec_ttl(old(self)@.header) && final(self)@.timestamp
                == old(self)@.timestamp && final(self)@.src == old(self)@.src && final(self)@.from
                == old(self)@.from && final(self)@.dst == old(self)@.dst && final(self)@.payload
                == old(self)@.payload,
    {
        if msg_header::FanOut::set_fan_out(&mut self.header, fanout).is_none() {
            return Err(BadFieldError::new("fanout value overflow"));
        }
        Ok(())
    }

    /// The TTL hop budget.
    pub fn get_ttl(&self) -> (r: u32)
        ensures
            r == msg_header::spec_ttl(self@.header),
    {
        msg_header::TTL::get_ttl(self.header)
    }

    /// Write the TTL. Fails with a field overflow exactly when the value
    /// needs more than four bits, and then changes nothing.
    pub fn set_ttl(&mut self, ttl: u32) -> (r: Result<(), BadFieldError>)
        ensures
            r is Ok <==> ttl <= 0xF,
            r is Err ==> *final(self) == *old(self),
            r is Ok ==> msg_header::spec_ttl(final(self)@.header) == ttl
                && msg_header::spec_msg_type(final(self)@.header) == msg_header::spec_msg_type(
                old(self)@.header,
            ) && msg_header::spec_relay_flag(final(self)@.header) == msg_header::spec_relay_flag(
                old(self)@.header,
            ) && msg_header::spec_relay_method(final(self)@.header)
                == msg_header::spec_relay_method(old(self)@.header) && msg_header::spec_fan_out(
                final(self)@.header,
            ) == msg_header::spec_fan_out(old(self)@.header) && final(self)@.timestamp
                == old(self)@.timestamp && final(self)@.src == old(self)@.src && final(self)@.from
                == old(self)@.from && final(self)@.dst == old(self)@.dst && final(self)@.payload
                == old(self)@.payload,
    {
        if msg_header::TTL::set_ttl(&mut self.header, ttl).is_none() {
            return Err(BadFieldError::new("ttl value overflow"));
        }
        Ok(())
    }

    /// Encode the message as one wire frame: the body length as two
    /// big-endian bytes, then the body. Fails exactly when the body would
    /// exceed the frame limit.
    pub fn into_bytes(&self) -> (r: Result<Vec<u8>, SerializeError>)
        requires
            self.wf(),
        ensures
            match r {
                Ok(bytes) => self@.payload.len() <= MSG_PAYLOAD_MAXLEN && bytes@ == spec_frame(
                    self@,
                ),
                Err(_) => self@.payload.len() > MSG_PAYLOAD_MAXLEN,
            },
    {
        if self.payload.len() > MSG_PAYLOAD_MAXLEN {
            return Err(SerializeError::new("length is larger than MSG_MAXLEN"));
        }
        let body_len: u16 = (BODY_FIXED_LEN + self.payload.len()) as u16;
        let mut ret: Vec<u8> = Vec::new();
        push_u16_be(&mut ret, body_len);
        push_u32_be(&mut ret, self.header);
        push_u64_be(&mut ret, self.timestamp);
        let src = self.src_id.get_id();
        let from = self.from_id.get_id();
        let dst = self.dst_id.get_id();
        ret.extend_from_slice(src.as_slice());
        ret.extend_from_slice(from.as_slice());
        ret.extend_from_slice(dst.as_slice());
        ret.extend_from_slice(self.payload.as_slice());
        proof {
            assert(ret@ =~= spec_frame(self@));
        }
        Ok(ret)
    }

    /// Decode one message body. Fails exactly when the body is shorter than
    /// its fixed fields; otherwise the fields are read back in place.
    pub fn from_body(body: &[u8]) -> (r: Result<Self, DeserializeError>)
        ensures
            match r {
                Ok(m) => spec_decode_body(body@) == Some(m@) && m.wf(),
                Err(_) => spec_decode_body(body@) is None,
            },
    {
        if body.len() < BODY_FIXED_LEN {
            return Err(DeserializeError::new("message body is truncated"));
        }
        let header = read_u32_be(body, 0);
        let timestamp = read_u64_be(body, 4);
        let src_bytes = vstd::slice::slice_subrange(body, 12, 44);
        let from_bytes = vstd::slice::slice_subrange(body, 44, 76);
        let dst_bytes = vstd::slice::slice_subrange(body, 76, 108);
        let payload_bytes = vstd::slice::slice_subrange(body, 108, body.len());
        let src_id = match Peer::try_from_id(src_bytes) {
            Ok(p) => p,
            Err(_) => {
                return Err(DeserializeError::new("decode src id error"));
            },
        };
        let from_id = match Peer::try_from_id(from_bytes) {
            Ok(p) => p,
            Err(_) => {
                return Err(DeserializeError::new("decode from id error"));
            },
        };
        let dst_id = match Peer::try_from_id(dst_bytes) {
            Ok(p) => p,
            Err(_) => {
                return Err(DeserializeError::new("decode dst id error"));
            },
        };
        let m = OverlayMessage {
            header,
            timestamp,
            src_id,
            from_id,
            dst_id,
            payload: vstd::slice::slice_to_vec(payload_bytes),
        };
        Ok(m)
    }

    /// Decode one whole frame: length prefix, then the body it announces.
    /// Fails on a buffer shorter than its own length prefix, on a length over
    /// the frame limit, and on a truncated body.
    pub fn from_bytes(buf: &[u8]) -> (r: Result<Self, DeserializeError>)
        ensures
            match r {
                Ok(m) => buf@.len() >= 2 && {
                    let len = spec_u16_from_be(buf@[0], buf@[1]) as int;
                    len <= MSG_MAXLEN - 2 && 2 + len <= buf@.len() && spec_decode_body(
                        buf@.subrange(2, 2 + len),
                    ) == Some(m@) && m.wf()
                },
                Err(_) => buf@.len() < 2 || {
                    let len = spec_u16_from_be(buf@[0], buf@[1]) as int;
                    len > MSG_MAXLEN - 2 || 2 + len > buf@.len() || spec_decode_body(
                        buf@.subrange(2, 2 + len),
                    ) is None
                },
            },
    {
        if buf.len() < 2 {
            return Err(DeserializeError::new("frame is shorter than its length prefix"));
        }
        let len = read_u16_be(buf, 0) as usize;
        if len > MSG_MAXLEN - 2 {
            return Err(DeserializeError::new("length is larger than MSG_MAXLEN"));
        }
        if 2 + len > buf.len() {
            return Err(DeserializeError::new("frame body is truncated"));
        }
        let body = vstd::slice::slice_subrange(buf, 2, 2 + len);
        Self::from_body(body)
    }
}

impl crate::utils::AsBytes for OverlayMessage {
    /// The wire frame, through the inherent encoder; a message whose ids are
    /// not whole refuses to encode.
    fn into_bytes(&self) -> Result<Vec<u8>, SerializeError> {
        let src_ok = self.src().get_id().len() == PEER_ID_SIZE;
        let from_ok = self.from().get_id().len() == PEER_ID_SIZE;
        let dst_ok = self.dst().get_id().len() == PEER_ID_SIZE;
        if src_ok && from_ok && dst_ok {
            OverlayMessage::into_bytes(self)
        } else {
            Err(SerializeError::new("message ids are not whole"))
        }
    }

    fn from_bytes(buf: &[u8]) -> Result<Self, DeserializeError> {
        OverlayMessage::from_bytes(buf)
    }
}

} // verus!
