//! CAN frames as CANopen sees them.
//!
//! The protocol modules speak in COB-IDs (an 11-bit CAN identifier) and payloads
//! of up to eight bytes; a CAN controller speaks in frames with an 11-bit or
//! 29-bit identifier. [`CanFrame`] holds the latter as plain values, and the two
//! helpers here convert between the two, so any driver — a bare-metal HAL or a
//! host SocketCAN socket alike — can carry CANopen traffic.
use vstd::prelude::*;

use crate::frame::Payload;

verus! {

/// A CAN identifier.
#[derive(Debug, Clone, Copy, PartialEq, Eq, Structural)]
pub enum CanId {
    /// An 11-bit identifier.
    Standard(u16),
    /// A 29-bit identifier.
    Extended(u32),
}

/// The largest payload of a classic CAN frame.
pub const MAX_FRAME_DATA: usize = 8;

/// A CAN data frame: an identifier and up to eight data bytes.
#[derive(Debug, Clone, Copy, PartialEq, Eq)]
pub struct CanFrame {
    id: CanId,
    data: Payload,
}

impl CanFrame {
    /// The identifier of the frame.
    pub closed spec fn spec_id(self) -> CanId {
        self.id
    }

    /// The data bytes of the frame.
    pub closed spec fn payload(self) -> Seq<u8> {
        self.data@
    }

    /// A frame with the given identifier and data, or `None` if `data` is longer
    /// than eight bytes.
    pub fn new(id: CanId, data: &[u8]) -> (r: Option<Self>)
        ensures
            r is Some <==> data@.len() <= 8,
            r matches Some(f) ==> f.spec_id() == id && f.payload() == data@,
    {
        if data.len() > MAX_FRAME_DATA {
            return None;
        }
        Some(Self { id, data: Payload::new(data) })
    }

    /// The identifier of the frame.
    pub fn id(&self) -> (id: CanId)
        ensures
            id == self.spec_id(),
    {
        self.id
    }

    /// The data bytes of the frame.
    pub fn data(&self) -> (d: &[u8])
        ensures
            d@ == self.payload(),
            d@.len() <= 8,
    {
        self.data.bytes()
    }
}

/// `embedded_can::StandardId::new`, read back by `as_raw`: the identifier as it
/// is if it fits eleven bits, `None` otherwise.
#[verifier::external_body]
fn standard_id(raw: u16) -> (r: Option<u16>)
    ensures
        r == if raw <= 0x7FF {
            Some(raw)
        } else {
            None
        },
{
    embedded_can::StandardId::new(raw).map(|id| id.as_raw())
}

/// Build a standard (11-bit) CAN frame carrying `data` on COB-ID `cob_id`.
///
/// Returns `None` if `cob_id` is not a valid 11-bit identifier or `data` is
/// longer than the frame can hold.
pub fn frame_from(cob_id: u16, data: &[u8]) -> (r: Option<CanFrame>)
    ensures
        r is Some <==> cob_id <= 0x7FF && data@.len() <= 8,
        r matches Some(f) ==> f.spec_id() == CanId::Standard(cob_id) && f.payload() == data@,
{
    match standard_id(cob_id) {
        Some(id) => CanFrame::new(CanId::Standard(id), data),
        None => None,
    }
}

/// The COB-ID that an identifier carries: none for a 29-bit one.
pub open spec fn cob_id_of(id: CanId) -> Option<u16> {
    match id {
        CanId::Standard(id) => Some(id),
        CanId::Extended(_) => None,
    }
}

/// The CANopen COB-ID of a received frame.
///
/// Returns `None` for a frame with a 29-bit extended identifier, which the
/// CANopen predefined connection set does not use.
pub fn cob_id(frame: &CanFrame) -> (r: Option<u16>)
    ensures
        r == cob_id_of(frame.spec_id()),
{
    match frame.id {
        CanId::Standard(id) => Some(id),
        CanId::Extended(_) => None,
    }
}

/// A frame with an 11-bit identifier carries it as its COB-ID, and one with a
/// 29-bit identifier carries none.
pub proof fn law_identifiers(standard: u16, extended: u32)
    ensures
        cob_id_of(CanId::Standard(standard)) == Some(standard),
        cob_id_of(CanId::Extended(extended)) is None,
{
}

} // verus!
