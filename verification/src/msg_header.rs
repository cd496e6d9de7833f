//! The 32-bit bit-packed message header.
//!
//! Layout, most significant bit first: message type 4 bits, relay flag 1 bit,
//! relay method 4 bits, fanout 8 bits, TTL 4 bits, reserved 11 bits. The
//! reserved bits are written as zero and ignored on read.

use vstd::prelude::*;

verus! {

/// The message-type field: bits 31 down to 28.
pub open spec fn spec_msg_type(h: u32) -> u32 {
    (h >> 28) & 0xF
}

/// The relay flag: bit 27.
pub open spec fn spec_relay_flag(h: u32) -> bool {
    h & 0x0800_0000u32 != 0
}

/// The relay-method field: bits 26 down to 23.
pub open spec fn spec_relay_method(h: u32) -> u32 {
    (h >> 23) & 0xF
}

/// The fanout field: bits 22 down to 15.
pub open spec fn spec_fan_out(h: u32) -> u32 {
    (h >> 15) & 0xFF
}

/// The TTL field: bits 14 down to 11.
pub open spec fn spec_ttl(h: u32) -> u32 {
    (h >> 11) & 0xF
}

/// The reserved bits: bits 10 down to 0.
pub open spec fn spec_reserved(h: u32) -> u32 {
    h & 0x7FF
}

/// All header fields of `b` agree with `a` except the one carved out by
/// `mask`: the complement bits are untouched.
pub open spec fn spec_same_outside(a: u32, b: u32, mask: u32) -> bool {
    a & !mask == b & !mask
}

/// Kinds of messages the overlay carries.
#[allow(non_camel_case_types)]
#[derive(Clone, Copy, Debug, PartialEq, Eq, Structural)]
pub enum MsgTypeKind {
    ROUTE_MSG,
    NET_MEASURE_MSG,
    PAYLOAD_MSG,
}

/// The dense small integer a message-type kind is written as.
pub open spec fn spec_msg_type_num(k: MsgTypeKind) -> u32 {
    match k {
        MsgTypeKind::ROUTE_MSG => 1,
        MsgTypeKind::NET_MEASURE_MSG => 2,
        MsgTypeKind::PAYLOAD_MSG => 3,
    }
}

/// The message-type kind a field value stands for, if any.
pub open spec fn spec_msg_type_kind(n: u32) -> Option<MsgTypeKind> {
    if n == 1 {
        Some(MsgTypeKind::ROUTE_MSG)
    } else if n == 2 {
        Some(MsgTypeKind::NET_MEASURE_MSG)
    } else if n == 3 {
        Some(MsgTypeKind::PAYLOAD_MSG)
    } else {
        None
    }
}

/// Relay schemes a message can ask for.
#[allow(non_camel_case_types)]
#[derive(Clone, Copy, Debug, PartialEq, Eq, Structural)]
pub enum RelayMethodKind {
    RANDOM,
    LOOKUP_TABLE_1,
    LOOKUP_TABLE_2,
    KAD,
    ALL,
}

/// The dense small integer a relay-method kind is written as.
pub open spec fn spec_relay_method_num(k: RelayMethodKind) -> u32 {
    match k {
        RelayMethodKind::RANDOM => 1,
        RelayMethodKind::LOOKUP_TABLE_1 => 2,
        RelayMethodKind::LOOKUP_TABLE_2 => 3,
        RelayMethodKind::KAD => 4,
        RelayMethodKind::ALL => 5,
    }
}

/// The relay-method kind a field value stands for, if any.
pub open spec fn spec_relay_method_kind(n: u32) -> Option<RelayMethodKind> {
    if n == 1 {
        Some(RelayMethodKind::RANDOM)
    } else if n == 2 {
        Some(RelayMethodKind::LOOKUP_TABLE_1)
    } else if n == 3 {
        Some(RelayMethodKind::LOOKUP_TABLE_2)
    } else if n == 4 {
        Some(RelayMethodKind::KAD)
    } else if n == 5 {
        Some(RelayMethodKind::ALL)
    } else {
        None
    }
}


/// After a masked write of `v` into bits 31..28, the field reads back as `v`
/// and the bits outside the mask are untouched.
proof fn lemma_write_msg_type(h0: u32, h1: u32, v: u32)
    requires
        v < 16,
        h1 == (h0 & !0xF000_0000u32) | (v << 28),
    ensures
        spec_msg_type(h1) == v,
        spec_same_outside(h1, h0, 0xF000_0000u32),
        spec_relay_flag(h1) == spec_relay_flag(h0),
        spec_relay_method(h1) == spec_relay_method(h0),
        spec_fan_out(h1) == spec_fan_out(h0),
        spec_ttl(h1) == spec_ttl(h0),
        spec_reserved(h1) == spec_reserved(h0),
{
    assert(v < 16 && h1 == (h0 & !0xF000_0000u32) | (v << 28) ==> (h1 >> 28) & 0xF == v && h1
        & !0xF000_0000u32 == h0 & !0xF000_0000u32 && (h1 & 0x0800_0000u32 != 0) == (h0
        & 0x0800_0000u32 != 0) && (h1 >> 23) & 0xF == (h0 >> 23) & 0xF && (h1 >> 15) & 0xFF == (h0
        >> 15) & 0xFF && (h1 >> 11) & 0xF == (h0 >> 11) & 0xF && h1 & 0x7FF == h0 & 0x7FF)
        by (bit_vector);
}

/// After a masked write of `v` into bit 27, the flag reads back as `v == 1`
/// and the bits outside the mask are untouched.
proof fn lemma_write_relay_flag(h0: u32, h1: u32, v: u32)
    requires
        v < 2,
        h1 == (h0 & !0x0800_0000u32) | (v << 27),
    ensures
        spec_relay_flag(h1) == (v == 1),
        spec_same_outside(h1, h0, 0x0800_0000u32),
        spec_msg_type(h1) == spec_msg_type(h0),
        spec_relay_method(h1) == spec_relay_method(h0),
        spec_fan_out(h1) == spec_fan_out(h0),
        spec_ttl(h1) == spec_ttl(h0),
        spec_reserved(h1) == spec_reserved(h0),
{
    assert(v < 2 && h1 == (h0 & !0x0800_0000u32) | (v << 27) ==> (h1 & 0x0800_0000u32 != 0) == (v
        == 1) && h1 & !0x0800_0000u32 == h0 & !0x0800_0000u32 && (h1 >> 28) & 0xF == (h0 >> 28)
        & 0xF && (h1 >> 23) & 0xF == (h0 >> 23) & 0xF && (h1 >> 15) & 0xFF == (h0 >> 15) & 0xFF
        && (h1 >> 11) & 0xF == (h0 >> 11) & 0xF && h1 & 0x7FF == h0 & 0x7FF) by (bit_vector);
}

/// After a masked write of `v` into bits 26..23, the field reads back as `v`
/// and the bits outside the mask are untouched.
proof fn lemma_write_relay_method(h0: u32, h1: u32, v: u32)
    requires
        v < 16,
        h1 == (h0 & !0x0780_0000u32) | (v << 23),
    ensures
        spec_relay_method(h1) == v,
        spec_same_outside(h1, h0, 0x0780_0000u32),
        spec_msg_type(h1) == spec_msg_type(h0),
        spec_relay_flag(h1) == spec_relay_flag(h0),
        spec_fan_out(h1) == spec_fan_out(h0),
        spec_ttl(h1) == spec_ttl(h0),
        spec_reserved(h1) == spec_reserved(h0),
{
    assert(v < 16 && h1 == (h0 & !0x0780_0000u32) | (v << 23) ==> (h1 >> 23) & 0xF == v && h1
        & !0x0780_0000u32 == h0 & !0x0780_0000u32 && (h1 >> 28) & 0xF == (h0 >> 28) & 0xF && (h1
        & 0x0800_0000u32 != 0) == (h0 & 0x0800_0000u32 != 0) && (h1 >> 15) & 0xFF == (h0 >> 15)
        & 0xFF && (h1 >> 11) & 0xF == (h0 >> 11) & 0xF && h1 & 0x7FF == h0 & 0x7FF)
        by (bit_vector);
}

/// After a masked write of `v` into bits 22..15, the field reads back as `v`
/// and the bits outside the mask are untouched.
proof fn lemma_write_fan_out(h0: u32, h1: u32, v: u32)
    requires
        v < 256,
        h1 == (h0 & !0x007F_8000u32) | (v << 15),
    ensures
        spec_fan_out(h1) == v,
        spec_same_outside(h1, h0, 0x007F_8000u32),
        spec_msg_type(h1) == spec_msg_type(h0),
        spec_relay_flag(h1) == spec_relay_flag(h0),
        spec_relay_method(h1) == spec_relay_method(h0),
        spec_ttl(h1) == spec_ttl(h0),
        spec_reserved(h1) == spec_reserved(h0),
{
    assert(v < 256 && h1 == (h0 & !0x007F_8000u32) | (v << 15) ==> (h1 >> 15) & 0xFF == v && h1
        & !0x007F_8000u32 == h0 & !0x007F_8000u32 && (h1 >> 28) & 0xF == (h0 >> 28) & 0xF && (h1
        & 0x0800_0000u32 != 0) == (h0 & 0x0800_0000u32 != 0) && (h1 >> 23) & 0xF == (h0 >> 23)
        & 0xF && (h1 >> 11) & 0xF == (h0 >> 11) & 0xF && h1 & 0x7FF == h0 & 0x7FF)
        by (bit_vector);
}

/// After a masked write of `v` into bits 14..11, the field reads back as `v`
/// and the bits outside the mask are untouched.
proof fn lemma_write_ttl(h0: u32, h1: u32, v: u32)
    requires
        v < 16,
        h1 == (h0 & !0x0000_7800u32) | (v << 11),
    ensures
        spec_ttl(h1) == v,
        spec_same_outside(h1, h0, 0x0000_7800u32),
        spec_msg_type(h1) == spec_msg_type(h0),
        spec_relay_flag(h1) == spec_relay_flag(h0),
        spec_relay_method(h1) == spec_relay_method(h0),
        spec_fan_out(h1) == spec_fan_out(h0),
        spec_reserved(h1) == spec_reserved(h0),
{
    assert(v < 16 && h1 == (h0 & !0x0000_7800u32) | (v << 11) ==> (h1 >> 11) & 0xF == v && h1
        & !0x0000_7800u32 == h0 & !0x0000_7800u32 && (h1 >> 28) & 0xF == (h0 >> 28) & 0xF && (h1
        & 0x0800_0000u32 != 0) == (h0 & 0x0800_0000u32 != 0) && (h1 >> 23) & 0xF == (h0 >> 23)
        & 0xF && (h1 >> 15) & 0xFF == (h0 >> 15) & 0xFF && h1 & 0x7FF == h0 & 0x7FF)
        by (bit_vector);
}

/// Namespace for whole-header operations.
pub struct MsgHeader {}

impl MsgHeader {
    /// Overwrite the field carved out by `mask` with `value`, shifted into
    /// place by `lsb`, leaving every bit outside the mask alone. The value
    /// must fit the field: shifted, it may not spill outside the mask.
    pub fn set_header_field(head: &mut u32, value: u32, mask: u32, lsb: u32)
        requires
            lsb < 32,
            (value << lsb) & !mask == 0,
        ensures
            *final(head) == (*old(head) & !mask) | (value << lsb),
    {
        let unset_mask: u32 = !mask;
        *head = *head & unset_mask;
        let set_mask: u32 = value << lsb;
        *head = *head | set_mask;
    }

    /// Build a header from all five fields. Fails exactly when fanout or TTL
    /// is out of range; on success every field reads back as given and the
    /// reserved bits are zero.
    pub fn build(
        msg_type: MsgTypeKind,
        is_relay: bool,
        relay_method: RelayMethodKind,
        fanout: u32,
        ttl: u32,
    ) -> (r: Option<u32>)
        ensures
            match r {
                Some(h) => fanout <= 0xFF && ttl <= 0xF && spec_msg_type(h) == spec_msg_type_num(
                    msg_type,
                ) && spec_relay_flag(h) == is_relay && spec_relay_method(h)
                    == spec_relay_method_num(relay_method) && spec_fan_out(h) == fanout
                    && spec_ttl(h) == ttl && spec_reserved(h) == 0,
                None => fanout > 0xFF || ttl > 0xF,
            },
    {
        let mut header: u32 = 0;
        proof {
            assert(0u32 & 0x7FF == 0 && (0u32 >> 11) & 0xF == 0 && (0u32 >> 15) & 0xFF == 0)
                by (bit_vector);
        }
        if MsgType::set_msg_type(&mut header, msg_type).is_none() {
            return None;
        }
        RelayFlag::set_relay_flag(&mut header, is_relay);
        if RelayMethod::set_relay_method(&mut header, relay_method).is_none() {
            return None;
        }
        if FanOut::set_fan_out(&mut header, fanout).is_none() {
            return None;
        }
        if TTL::set_ttl(&mut header, ttl).is_none() {
            return None;
        }
        Some(header)
    }
}

/// Namespace for the message-type field.
pub struct MsgType {}

impl MsgType {
    /// Decode the message-type field; out-of-range values give `None`.
    pub fn get_msg_type(n: u32) -> (r: Option<MsgTypeKind>)
        ensures
            r == spec_msg_type_kind(spec_msg_type(n)),
    {
        let v = (n >> 28) & 0xF;
        if v == 1 {
            Some(MsgTypeKind::ROUTE_MSG)
        } else if v == 2 {
            Some(MsgTypeKind::NET_MEASURE_MSG)
        } else if v == 3 {
            Some(MsgTypeKind::PAYLOAD_MSG)
        } else {
            None
        }
    }

    /// Write the message-type field; every kind encodes, so this always
    /// returns `Some` and touches nothing but those four bits.
    pub fn set_msg_type(head: &mut u32, kind: MsgTypeKind) -> (r: Option<()>)
        ensures
            r is Some,
            spec_msg_type(*final(head)) == spec_msg_type_num(kind),
            spec_same_outside(*final(head), *old(head), 0xF000_0000u32),
            spec_relay_flag(*final(head)) == spec_relay_flag(*old(head)),
            spec_relay_method(*final(head)) == spec_relay_method(*old(head)),
            spec_fan_out(*final(head)) == spec_fan_out(*old(head)),
            spec_ttl(*final(head)) == spec_ttl(*old(head)),
            spec_reserved(*final(head)) == spec_reserved(*old(head)),
    {
        let kind_num: u32 = match kind {
            MsgTypeKind::ROUTE_MSG => 1,
            MsgTypeKind::NET_MEASURE_MSG => 2,
            MsgTypeKind::PAYLOAD_MSG => 3,
        };
        proof {
            let v = kind_num;
            assert(v < 16 ==> (v << 28) & !0xF000_0000u32 == 0) by (bit_vector);
        }
        MsgHeader::set_header_field(head, kind_num, 0xF000_0000, 28);
        proof {
            lemma_write_msg_type(*old(head), *head, kind_num);
        }
        Some(())
    }
}

/// Namespace for the relay flag.
pub struct RelayFlag {}

impl RelayFlag {
    /// Read the relay flag.
    pub fn get_relay_flag(n: u32) -> (r: bool)
        ensures
            r == spec_relay_flag(n),
    {
        (n & 0x0800_0000u32) != 0
    }

    /// Write the relay flag, touching nothing but bit 27.
    pub fn set_relay_flag(head: &mut u32, flag: bool)
        ensures
            spec_relay_flag(*final(head)) == flag,
            spec_same_outside(*final(head), *old(head), 0x0800_0000u32),
            spec_msg_type(*final(head)) == spec_msg_type(*old(head)),
            spec_relay_method(*final(head)) == spec_relay_method(*old(head)),
            spec_fan_out(*final(head)) == spec_fan_out(*old(head)),
            spec_ttl(*final(head)) == spec_ttl(*old(head)),
            spec_reserved(*final(head)) == spec_reserved(*old(head)),
    {
        let value: u32 = if flag {
            1
        } else {
            0
        };
        proof {
            let v = value;
            assert(v < 2 ==> (v << 27) & !0x0800_0000u32 == 0) by (bit_vector);
        }
        MsgHeader::set_header_field(head, value, 0x0800_0000, 27);
        proof {
            lemma_write_relay_flag(*old(head), *head, value);
        }
    }
}

/// Namespace for the relay-method field.
pub struct RelayMethod {}

impl RelayMethod {
    /// Decode the relay-method field; out-of-range values give `None`.
    pub fn get_relay_method(n: u32) -> (r: Option<RelayMethodKind>)
        ensures
            r == spec_relay_method_kind(spec_relay_method(n)),
    {
        let v = (n >> 23) & 0xF;
        if v == 1 {
            Some(RelayMethodKind::RANDOM)
        } else if v == 2 {
            Some(RelayMethodKind::LOOKUP_TABLE_1)
        } else if v == 3 {
            Some(RelayMethodKind::LOOKUP_TABLE_2)
        } else if v == 4 {
            Some(RelayMethodKind::KAD)
        } else if v == 5 {
            Some(RelayMethodKind::ALL)
        } else {
            None
        }
    }

    /// Write the relay-method field; every kind encodes, so this always
    /// returns `Some` and touches nothing but those four bits.
    pub fn set_relay_method(head: &mut u32, kind: RelayMethodKind) -> (r: Option<()>)
        ensures
            r is Some,
            spec_relay_method(*final(head)) == spec_relay_method_num(kind),
            spec_same_outside(*final(head), *old(head), 0x0780_0000u32),
            spec_msg_type(*final(head)) == spec_msg_type(*old(head)),
            spec_relay_flag(*final(head)) == spec_relay_flag(*old(head)),
            spec_fan_out(*final(head)) == spec_fan_out(*old(head)),
            spec_ttl(*final(head)) == spec_ttl(*old(head)),
            spec_reserved(*final(head)) == spec_reserved(*old(head)),
    {
        let kind_num: u32 = match kind {
            RelayMethodKind::RANDOM => 1,
            RelayMethodKind::LOOKUP_TABLE_1 => 2,
            RelayMethodKind::LOOKUP_TABLE_2 => 3,
            RelayMethodKind::KAD => 4,
            RelayMethodKind::ALL => 5,
        };
        proof {
            let v = kind_num;
            assert(v < 16 ==> (v << 23) & !0x0780_0000u32 == 0) by (bit_vector);
        }
        MsgHeader::set_header_field(head, kind_num, 0x0780_0000, 23);
        proof {
            lemma_write_relay_method(*old(head), *head, kind_num);
        }
        Some(())
    }
}

/// Namespace for the fanout field.
pub struct FanOut {}

impl FanOut {
    /// Read the fanout field.
    pub fn get_fan_out(n: u32) -> (r: u32)
        ensures
            r == spec_fan_out(n),
    {
        (n >> 15) & 0xFF
    }

    /// Write the fanout field. Fails exactly when the value needs more than
    /// eight bits; on success it touches nothing but those eight bits.
    pub fn set_fan_out(head: &mut u32, fanout: u32) -> (r: Option<()>)
        ensures
            r is Some <==> fanout <= 0xFF,
            r is None ==> *final(head) == *old(head),
            r is Some ==> spec_fan_out(*final(head)) == fanout && spec_same_outside(
                *final(head),
                *old(head),
                0x007F_8000u32,
            ) && spec_msg_type(*final(head)) == spec_msg_type(*old(head)) && spec_relay_flag(
                *final(head),
            ) == spec_relay_flag(*old(head)) && spec_relay_method(*final(head))
                == spec_relay_method(*old(head)) && spec_ttl(*final(head)) == spec_ttl(*old(head))
                && spec_reserved(*final(head)) == spec_reserved(*old(head)),
    {
        if fanout > 0xFF {
            return None;
        }
        proof {
            let v = fanout;
            assert(v < 256 ==> (v << 15) & !0x007F_8000u32 == 0) by (bit_vector);
        }
        MsgHeader::set_header_field(head, fanout, 0x007F_8000, 15);
        proof {
            lemma_write_fan_out(*old(head), *head, fanout);
        }
        Some(())
    }
}

/// Namespace for the TTL field.
pub struct TTL {}

impl TTL {
    /// Read the TTL field.
    pub fn get_ttl(n: u32) -> (r: u32)
        ensures
            r == spec_ttl(n),
    {
        (n >> 11) & 0xF
    }

    /// Write the TTL field. Fails exactly when the value needs more than four
    /// bits; on success it touches nothing but those four bits.
    pub fn set_ttl(head: &mut u32, ttl: u32) -> (r: Option<()>)
        ensures
            r is Some <==> ttl <= 0xF,
            r is None ==> *final(head) == *old(head),
            r is Some ==> spec_ttl(*final(head)) == ttl && spec_same_outside(
                *final(head),
                *old(head),
                0x0000_7800u32,
            ) && spec_msg_type(*final(head)) == spec_msg_type(*old(head)) && spec_relay_flag(
                *final(head),
            ) == spec_relay_flag(*old(head)) && spec_relay_method(*final(head))
                == spec_relay_method(*old(head)) && spec_fan_out(*final(head)) == spec_fan_out(
                *old(head),
            ) && spec_reserved(*final(head)) == spec_reserved(*old(head)),
    {
        if ttl > 0xF {
            return None;
        }
        proof {
            let v = ttl;
            assert(v < 16 ==> (v << 11) & !0x0000_7800u32 == 0) by (bit_vector);
        }
        MsgHeader::set_header_field(head, ttl, 0x0000_7800, 11);
        proof {
            lemma_write_ttl(*old(head), *head, ttl);
        }
        Some(())
    }
}

/// Fields carved out of disjoint bit ranges do not disturb one another: a
/// write under one mask keeps every field that lies outside that mask. This
/// discharges the cross-field steps of `MsgHeader::build`.
pub proof fn lemma_field_isolation(a: u32, b: u32, mask: u32)
    requires
        spec_same_outside(a, b, mask),
    ensures
        mask & 0xF000_0000u32 == 0 ==> spec_msg_type(a) == spec_msg_type(b),
        mask & 0x0800_0000u32 == 0 ==> spec_relay_flag(a) == spec_relay_flag(b),
        mask & 0x0780_0000u32 == 0 ==> spec_relay_method(a) == spec_relay_method(b),
        mask & 0x007F_8000u32 == 0 ==> spec_fan_out(a) == spec_fan_out(b),
        mask & 0x0000_7800u32 == 0 ==> spec_ttl(a) == spec_ttl(b),
        mask & 0x0000_07FFu32 == 0 ==> spec_reserved(a) == spec_reserved(b),
{
    assert(a & !mask == b & !mask && mask & 0xF000_0000u32 == 0 ==> (a >> 28) & 0xF == (b >> 28)
        & 0xF) by (bit_vector);
    assert(a & !mask == b & !mask && mask & 0x0800_0000u32 == 0 ==> (a & 0x0800_0000u32 != 0) == (
    b & 0x0800_0000u32 != 0)) by (bit_vector);
    assert(a & !mask == b & !mask && mask & 0x0780_0000u32 == 0 ==> (a >> 23) & 0xF == (b >> 23)
        & 0xF) by (bit_vector);
    assert(a & !mask == b & !mask && mask & 0x007F_8000u32 == 0 ==> (a >> 15) & 0xFF == (b >> 15)
        & 0xFF) by (bit_vector);
    assert(a & !mask == b & !mask && mask & 0x0000_7800u32 == 0 ==> (a >> 11) & 0xF == (b >> 11)
        & 0xF) by (bit_vector);
    assert(a & !mask == b & !mask && mask & 0x0000_07FFu32 == 0 ==> a & 0x7FF == b & 0x7FF)
        by (bit_vector);
}

/// Decoding the number a message-type kind is written as gives the kind back:
/// with `MsgHeader::build`, this closes the header bit round trip for the
/// message type.
pub proof fn lemma_msg_type_round_trip(k: MsgTypeKind)
    ensures
        spec_msg_type_kind(spec_msg_type_num(k)) == Some(k),
{
}

/// Decoding the number a relay-method kind is written as gives the kind back:
/// with `MsgHeader::build`, this closes the header bit round trip for the
/// relay method.
pub proof fn lemma_relay_method_round_trip(k: RelayMethodKind)
    ensures
        spec_relay_method_kind(spec_relay_method_num(k)) == Some(k),
{
}

} // verus!
