//! Codec for the 29-bit CAN arbitration identifier.
//!
//! The identifier is interpreted as six fields.  On the wire the layout is,
//! from the most significant bit down: a 5-bit device-type tag, the fixed
//! 8-bit manufacturer code, a 6-bit api-class group whose top two bits are
//! the fragment flag and the ack flag (leaving 4 bits of api-class proper),
//! a 4-bit api-index, and a 6-bit device id.

use vstd::prelude::*;

verus! {

/// Manufacturer code embedded in every identifier this codec produces.
pub const MANUFACTURER_CODE: u8 = 6;

/// Device-type tag of the distance sensor peripheral.
pub const DEVICE_TYPE_DISTANCE_SENSOR: u8 = 6;

/// Device-type tag of the switchable power-distribution module.
pub const DEVICE_TYPE_POWER_DISTRIBUTION_MODULE: u8 = 8;

/// The structured view of a 29-bit arbitration identifier.
#[derive(Clone, Copy, Debug, PartialEq, Eq, Structural)]
pub struct MessageId {
    pub device_type: u8,
    pub fragment_flag: bool,
    pub ack_flag: bool,
    pub api_class: u8,
    pub api_index: u8,
    pub device_id: u8,
}

impl MessageId {
    /// A fields record is well formed when every field fits its bit width:
    /// 5 bits of device type, 4 bits of api class, 4 bits of api index and
    /// 6 bits of device id.
    pub open spec fn well_formed(self) -> bool {
        &&& self.device_type < 32
        &&& self.api_class < 16
        &&& self.api_index < 16
        &&& self.device_id < 64
    }

    /// The same identifier with the ack flag set: the identifier of the
    /// reply that acknowledges a request sent under `self`.
    pub open spec fn spec_with_ack(self) -> MessageId {
        MessageId { ack_flag: true, ..self }
    }

    /// The same identifier with the fragment flag cleared: the base
    /// identifier restored when a fragmented message completes.
    pub open spec fn spec_without_fragment(self) -> MessageId {
        MessageId { fragment_flag: false, ..self }
    }

    pub fn with_ack(self) -> (r: MessageId)
        ensures
            r == self.spec_with_ack(),
    {
        MessageId { ack_flag: true, ..self }
    }

    pub fn without_fragment(self) -> (r: MessageId)
        ensures
            r == self.spec_without_fragment(),
    {
        MessageId { fragment_flag: false, ..self }
    }

    pub fn with_fragment(self) -> (r: MessageId)
        ensures
            r == (MessageId { fragment_flag: true, ..self }),
    {
        MessageId { fragment_flag: true, ..self }
    }
}

/// The 29-bit wire form of a well-formed fields record.
pub open spec fn spec_encode_id(f: MessageId) -> u32 {
    ((f.device_type as u32) << 24) | ((MANUFACTURER_CODE as u32) << 16) | (
    (if f.fragment_flag {
        0x20u32
    } else {
        0u32
    }) << 10) | ((if f.ack_flag {
        0x10u32
    } else {
        0u32
    }) << 10) | ((f.api_class as u32) << 10) | ((f.api_index as u32) << 6) | (f.device_id as u32)
}

/// The fields read back from a 32-bit identifier.  Bits outside the six
/// fields (the manufacturer byte and anything above bit 28) are ignored.
pub open spec fn spec_decode_id(v: u32) -> MessageId {
    MessageId {
        device_type: ((v >> 24) & 0x1F) as u8,
        fragment_flag: (v >> 10) & 0x20 != 0,
        ack_flag: (v >> 10) & 0x10 != 0,
        api_class: ((v >> 10) & 0x0F) as u8,
        api_index: ((v >> 6) & 0x0F) as u8,
        device_id: (v & 0x3F) as u8,
    }
}

/// Packs a well-formed fields record into its 29-bit wire form.
pub fn encode_id(f: MessageId) -> (r: u32)
    requires
        f.well_formed(),
    ensures
        r == spec_encode_id(f),
        r < 0x2000_0000,
{
    let frag: u32 = if f.fragment_flag {
        0x20
    } else {
        0
    };
    let ack: u32 = if f.ack_flag {
        0x10
    } else {
        0
    };
    let r = ((f.device_type as u32) << 24) | ((MANUFACTURER_CODE as u32) << 16) | (frag << 10) | (
    ack << 10) | ((f.api_class as u32) << 10) | ((f.api_index as u32) << 6) | (f.device_id as u32);
    proof {
        let dt = f.device_type;
        let ac = f.api_class;
        let ai = f.api_index;
        let di = f.device_id;
        assert(dt < 32 && ac < 16 && ai < 16 && di < 64 ==> ((dt as u32) << 24) | (6u32 << 16) | (
        frag << 10) | (ack << 10) | ((ac as u32) << 10) | ((ai as u32) << 6) | (di as u32)
            < 0x2000_0000) by (bit_vector)
            requires
                frag == 0x20u32 || frag == 0u32,
                ack == 0x10u32 || ack == 0u32,
        ;
    }
    r
}

/// Unpacks a 32-bit identifier into its structured fields.
pub fn decode_id(v: u32) -> (r: MessageId)
    ensures
        r == spec_decode_id(v),
        r.well_formed(),
{
    let r = MessageId {
        device_type: ((v >> 24) & 0x1F) as u8,
        fragment_flag: (v >> 10) & 0x20 != 0,
        ack_flag: (v >> 10) & 0x10 != 0,
        api_class: ((v >> 10) & 0x0F) as u8,
        api_index: ((v >> 6) & 0x0F) as u8,
        device_id: (v & 0x3F) as u8,
    };
    proof {
        assert((v >> 24) & 0x1F < 32 && (v >> 10) & 0x0F < 16 && (v >> 6) & 0x0F < 16 && v & 0x3F
            < 64) by (bit_vector);
    }
    r
}

/// Identifier round trip: decoding an encoded well-formed fields record
/// gives the record back, and the encoding never exceeds 29 significant
/// bits.
pub proof fn lemma_id_roundtrip(f: MessageId)
    requires
        f.well_formed(),
    ensures
        spec_decode_id(spec_encode_id(f)) == f,
        spec_encode_id(f) < 0x2000_0000,
{
    let dt = f.device_type;
    let ac = f.api_class;
    let ai = f.api_index;
    let di = f.device_id;
    let frag: u32 = if f.fragment_flag {
        0x20
    } else {
        0
    };
    let ack: u32 = if f.ack_flag {
        0x10
    } else {
        0
    };
    let v = ((dt as u32) << 24) | (6u32 << 16) | (frag << 10) | (ack << 10) | ((ac as u32) << 10)
        | ((ai as u32) << 6) | (di as u32);
    assert(dt < 32 && ac < 16 && ai < 16 && di < 64 ==> {
        &&& ((v >> 24) & 0x1F) == dt
        &&& ((v >> 10) & 0x20 != 0) == (frag == 0x20u32)
        &&& ((v >> 10) & 0x10 != 0) == (ack == 0x10u32)
        &&& ((v >> 10) & 0x0F) == ac
        &&& ((v >> 6) & 0x0F) == ai
        &&& (v & 0x3F) == di
        &&& v < 0x2000_0000
    }) by (bit_vector)
        requires
            frag == 0x20u32 || frag == 0u32,
            ack == 0x10u32 || ack == 0u32,
            v == ((dt as u32) << 24) | (6u32 << 16) | (frag << 10) | (ack << 10) | ((
            ac as u32) << 10) | ((ai as u32) << 6) | (di as u32),
    ;
}

} // verus!
