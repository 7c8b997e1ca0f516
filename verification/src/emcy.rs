//! Emergency object (EMCY) — device error signalling (CiA 301 §7.2.7).
//!
//! A node transmits an EMCY frame when an internal error appears or clears. The
//! default COB-ID is `0x080 + node` ([`emcy_cob_id`]) — the same base as SYNC,
//! but SYNC is broadcast at exactly `0x080` while EMCY node ids are `1..=127`,
//! so they never collide.
//!
//! An EMCY frame is always eight bytes:
//!
//! | bytes | field |
//! |-------|-------|
//! | 0..2  | emergency error code (little-endian) |
//! | 2     | error register (a copy of object `0x1001`) |
//! | 3..8  | manufacturer-specific error field |
//!
//! A frame with error code `0x0000` signals *error reset / no error*.
use vstd::prelude::*;

use crate::little_endian::{
    from_le, law_bytes_make_up_the_number, le_bytes, le_value, lemma_byte_ranges,
    lemma_le_round_trip, two_bytes, u16_bytes,
};
use crate::sync::SYNC_COB_ID;
use crate::types::{Error, NodeId, Result};

pub mod error_code;

verus! {

/// COB-ID base for the EMCY channel: `0x080 + node`.
pub const EMCY_COB_BASE: u16 = 0x080;

/// The COB-ID of a node's EMCY producer channel.
pub fn emcy_cob_id(node: NodeId) -> (id: u16)
    ensures
        id == EMCY_COB_BASE + node@,
{
    EMCY_COB_BASE + node.raw() as u16
}

/// No device's EMCY channel collides with SYNC, nor with that of another
/// device.
pub proof fn law_emcy_cob_ids_are_distinct(a: u8, b: u8)
    requires
        1 <= a <= 127,
        1 <= b <= 127,
    ensures
        EMCY_COB_BASE + a != SYNC_COB_ID,
        EMCY_COB_BASE + a == EMCY_COB_BASE + b ==> a == b,
{
}

/// The 8-byte EMCY payload carried in a CAN frame's data field.
pub type EmcyPayload = [u8; 8];

/// The error register (object `0x1001`): a bitfield summarising which error
/// classes are currently active on the node (CiA 301 §7.5.2.2).
#[derive(Debug, Clone, Copy, PartialEq, Eq, Structural)]
pub struct ErrorRegister(pub u8);

impl Default for ErrorRegister {
    fn default() -> (r: Self)
        ensures
            r.0 == 0,
    {
        ErrorRegister::none()
    }
}

impl ErrorRegister {
    /// Bit 0 — a generic error is present. Set whenever any other bit is.
    pub const GENERIC: u8 = 0x01;

    /// Bit 1 — current.
    pub const CURRENT: u8 = 0x02;

    /// Bit 2 — voltage.
    pub const VOLTAGE: u8 = 0x04;

    /// Bit 3 — temperature.
    pub const TEMPERATURE: u8 = 0x08;

    /// Bit 4 — communication (overrun, error state).
    pub const COMMUNICATION: u8 = 0x10;

    /// Bit 5 — device-profile-specific.
    pub const DEVICE_PROFILE: u8 = 0x20;

    /// Bit 7 — manufacturer-specific. (Bit 6 is reserved, always 0.)
    pub const MANUFACTURER: u8 = 0x80;

    /// An error register with no bits set (no active error).
    pub fn none() -> (r: ErrorRegister)
        ensures
            r == ErrorRegister(0),
    {
        ErrorRegister(0)
    }

    /// Whether all of `bits` are set.
    pub fn contains(self, bits: u8) -> (b: bool)
        ensures
            b == (self.0 & bits == bits),
    {
        self.0 & bits == bits
    }

    /// Whether any error is signalled (any bit set).
    pub fn has_error(self) -> (b: bool)
        ensures
            b == (self.0 != 0),
    {
        self.0 != 0
    }
}

/// An emergency message.
#[derive(Debug, Clone, Copy, PartialEq, Eq)]
pub struct EmergencyMessage {
    /// The 16-bit emergency error code (see [`error_code`]).
    pub error_code: u16,
    /// The error register (object `0x1001`) at the time of the event.
    pub error_register: ErrorRegister,
    /// Five bytes of manufacturer-specific error information.
    pub vendor_specific: [u8; 5],
}

impl EmergencyMessage {
    /// The eight-byte payload: code, register, manufacturer-specific bytes.
    pub open spec fn encoding(self) -> Seq<u8> {
        le_bytes(self.error_code as nat, 2) + seq![self.error_register.0] + self.vendor_specific@
    }

    /// Whether the eight bytes `data` carry this message.
    pub open spec fn decoded_from(self, data: Seq<u8>) -> bool {
        &&& self.error_code == le_value(data.subrange(0, 2))
        &&& self.error_register.0 == data[2]
        &&& self.vendor_specific@ == data.subrange(3, 8)
    }

    /// The payload of a message carries that message and no other.
    pub proof fn law_round_trip(m: EmergencyMessage, n: EmergencyMessage)
        ensures
            m.encoding().len() == 8,
            n.decoded_from(m.encoding()) <==> n == m,
    {
        lemma_byte_ranges();
        lemma_le_round_trip(m.error_code as nat, 2);
        assert(m.encoding().subrange(0, 2) =~= le_bytes(m.error_code as nat, 2));
        assert(m.encoding().subrange(3, 8) =~= m.vendor_specific@);
        if n.decoded_from(m.encoding()) {
            assert(n.vendor_specific =~= m.vendor_specific);
        }
    }

    /// A new emergency message.
    pub fn new(error_code: u16, error_register: ErrorRegister, vendor_specific: [u8; 5]) -> (m: Self)
        ensures
            m == (EmergencyMessage { error_code, error_register, vendor_specific }),
    {
        Self { error_code, error_register, vendor_specific }
    }

    /// The *error reset / no error* message (code `0x0000`, register clear).
    pub fn error_reset() -> (m: Self)
        ensures
            m.error_code == error_code::ERROR_RESET,
            m.error_register == ErrorRegister(0),
            m.vendor_specific@ == seq![0u8, 0, 0, 0, 0],
    {
        let vendor_specific = [0u8; 5];
        assert(vendor_specific@ =~= seq![0u8, 0, 0, 0, 0]);
        Self {
            error_code: error_code::ERROR_RESET,
            error_register: ErrorRegister::none(),
            vendor_specific,
        }
    }

    /// Whether this message signals *error reset / no error*.
    pub fn is_error_reset(&self) -> (b: bool)
        ensures
            b == (self.error_code == error_code::ERROR_RESET),
    {
        self.error_code == error_code::ERROR_RESET
    }

    /// Encode this message into its 8-byte payload.
    pub fn encode(&self) -> (p: EmcyPayload)
        ensures
            p@ == self.encoding(),
    {
        let code = u16_bytes(self.error_code);
        let v = &self.vendor_specific;
        let p = [code[0], code[1], self.error_register.0, v[0], v[1], v[2], v[3], v[4]];
        assert(p@ =~= self.encoding());
        p
    }

    /// Decode an EMCY frame's data field.
    ///
    /// Returns [`Error::BadLength`] unless `data` is exactly eight bytes.
    pub fn decode(data: &[u8]) -> (r: Result<Self>)
        ensures
            r is Ok <==> data@.len() == 8,
            r matches Ok(m) ==> m.decoded_from(data@),
            r matches Err(e) ==> e == Error::BadLength,
    {
        if data.len() != 8 {
            return Err(Error::BadLength);
        }
        proof {
            lemma_byte_ranges();
        }
        let vendor_specific = [data[3], data[4], data[5], data[6], data[7]];
        assert(vendor_specific@ =~= data@.subrange(3, 8));
        Ok(
            Self {
                error_code: from_le(&data[0..2]) as u16,
                error_register: ErrorRegister(data[2]),
                vendor_specific,
            },
        )
    }
}

/// Where the parts of an emergency stand: the code in bytes 0 and 1, least
/// significant first, the error register in byte 2, and the five
/// manufacturer-specific bytes behind it. The channel of node `id` is
/// `0x80 + id`.
pub proof fn law_layout(m: EmergencyMessage)
    ensures
        ({
            let e = m.encoding();
            &&& e.len() == 8
            &&& two_bytes(e[0], e[1]) == m.error_code
            &&& e[2] == m.error_register.0
            &&& forall|i: int| 0 <= i < 5 ==> #[trigger] e[3 + i] == m.vendor_specific@[i]
        }),
        forall|data: Seq<u8>| #[trigger]
            m.decoded_from(data) && data.len() == 8 ==> {
                &&& two_bytes(data[0], data[1]) == m.error_code
                &&& data[2] == m.error_register.0
                &&& data.subrange(3, 8) == m.vendor_specific@
            },
        EMCY_COB_BASE == 0x80,
        error_code::ERROR_RESET == 0,
        ErrorRegister::GENERIC == 0x01,
        ErrorRegister::CURRENT == 0x02,
        ErrorRegister::VOLTAGE == 0x04,
        ErrorRegister::TEMPERATURE == 0x08,
        ErrorRegister::COMMUNICATION == 0x10,
        ErrorRegister::DEVICE_PROFILE == 0x20,
        ErrorRegister::MANUFACTURER == 0x80,
{
    EmergencyMessage::law_round_trip(m, m);
    let e = m.encoding();
    let c = le_bytes(m.error_code as nat, 2);
    law_bytes_make_up_the_number(m.error_code, 0, c);
    assert(e[0] == c[0] && e[1] == c[1]);
    assert forall|data: Seq<u8>| #[trigger] m.decoded_from(data) && data.len() == 8 implies {
        &&& two_bytes(data[0], data[1]) == m.error_code
        &&& data[2] == m.error_register.0
        &&& data.subrange(3, 8) == m.vendor_specific@
    } by {
        law_bytes_make_up_the_number(0, 0, data.subrange(0, 2));
    }
}

} // verus!
