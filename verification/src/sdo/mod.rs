//! Service Data Object (SDO) protocol (CiA 301 §7.2.4).
//!
//! SDOs provide confirmed, addressed read/write access to any object
//! dictionary entry. Each transfer step is a client request frame answered by
//! a server response frame, exchanged on a pair of CAN ids (by default
//! `0x600 + node` for requests and `0x580 + node` for responses).
//!
//! This module implements **expedited** and **segmented** transfer: a value of
//! one to four bytes carried inline in a single exchange, or any other value
//! split across a run of segment frames. [`block`] holds block transfer.
//!
//! The free functions here encode and decode the raw 8-byte CAN *data field*.
//! The first byte of a frame holds the command specifier in its top three bits
//! and flags below; the contracts speak of those as quotients and remainders.
use vstd::prelude::*;

use crate::datatypes::{decoded, DataType, Value, MAX_STRING_LEN};
use crate::frame::{pad8, padded};
use crate::little_endian::{
    from_le, le_bytes, le_value, lemma_byte_ranges, lemma_le_bytes_len, lemma_le_round_trip,
    u16_bytes, u32_bytes,
};
use crate::object_dictionary::Address;
use crate::types::{Error, NodeId, Result};

pub mod block;
pub mod client;
pub mod laws;
pub mod server;
pub mod wire;

pub use client::{SdoClient, SdoEvent};
pub use server::SdoServer;

verus! {

/// COB-ID base for SDO client→server (request) frames: `0x600 + node id`.
pub const SDO_REQUEST_COB_BASE: u16 = 0x600;

/// COB-ID base for SDO server→client (response) frames: `0x580 + node id`.
pub const SDO_RESPONSE_COB_BASE: u16 = 0x580;

/// The 8-byte SDO payload carried in a CAN frame's data field.
pub type SdoPayload = [u8; 8];

/// The COB-ID of the SDO request channel (client → server) for `node`.
pub fn request_cob_id(node: NodeId) -> (id: u16)
    ensures
        id == SDO_REQUEST_COB_BASE + node@,
{
    SDO_REQUEST_COB_BASE + node.raw() as u16
}

/// The COB-ID of the SDO response channel (server → client) for `node`.
pub fn response_cob_id(node: NodeId) -> (id: u16)
    ensures
        id == SDO_RESPONSE_COB_BASE + node@,
{
    SDO_RESPONSE_COB_BASE + node.raw() as u16
}

// --- Command specifiers (top three bits of byte 0) -------------------------

/// Client: download segment (`000xxxxx`). The server's upload segment has the
/// same specifier, so one data-segment codec serves both directions.
pub const CCS_DOWNLOAD_SEGMENT: u8 = 0x00;

/// Client: download initiate (`001xxxxx`).
pub const CCS_DOWNLOAD_INITIATE: u8 = 0x20;

/// Client: upload initiate (`010xxxxx`).
pub const CCS_UPLOAD_INITIATE: u8 = 0x40;

/// Client: upload segment (`011xxxxx`).
pub const CCS_UPLOAD_SEGMENT: u8 = 0x60;

/// Server: download segment (`001xxxxx`).
pub const SCS_DOWNLOAD_SEGMENT: u8 = 0x20;

/// Server: upload initiate (`010xxxxx`).
pub const SCS_UPLOAD_INITIATE: u8 = 0x40;

/// Server: download initiate (`011xxxxx`).
pub const SCS_DOWNLOAD_INITIATE: u8 = 0x60;

/// Either side: abort (`100xxxxx`).
pub const CS_ABORT: u8 = 0x80;

/// Expedited and size indicated (bits 1 and 0 of an initiate frame).
pub const EXPEDITED_SIZED: u8 = 0x03;

/// Size indicated (bit 0 of an initiate frame).
pub const SIZE_INDICATED: u8 = 0x01;

/// The toggle bit of a segment frame.
pub const TOGGLE: u8 = 0x10;

/// The "no more segments" bit of a data segment.
pub const NO_MORE_SEGMENTS: u8 = 0x01;

/// Maximum data bytes carried by a single SDO segment frame.
pub const SEGMENT_DATA_MAX: usize = 7;

/// The command specifier of a command byte: its top three bits.
pub open spec fn specifier(cmd: u8) -> int {
    (cmd - cmd % 0x20) as int
}

/// Whether the toggle bit (bit 4) is set.
pub open spec fn toggle_bit(cmd: u8) -> bool {
    cmd / 0x10 % 2 == 1
}

/// Whether the expedited bit (bit 1) of an initiate frame is set.
pub open spec fn expedited_bit(cmd: u8) -> bool {
    cmd / 2 % 2 == 1
}

/// Whether the lowest bit is set: *size indicated* in an initiate frame, *no
/// more segments* in a data segment.
pub open spec fn low_bit(cmd: u8) -> bool {
    cmd % 2 == 1
}

/// How many of the four data bytes of an expedited frame are used (bits 3..2
/// count the unused ones).
pub open spec fn expedited_len(cmd: u8) -> int {
    4 - cmd / 4 % 4
}

/// The command specifier of a command byte.
pub(crate) fn specifier_of(cmd: u8) -> (cs: u8)
    ensures
        cs == specifier(cmd),
{
    cmd - cmd % 0x20
}

/// The toggle bit of a command byte.
pub(crate) fn toggle_of(cmd: u8) -> (t: bool)
    ensures
        t == toggle_bit(cmd),
{
    cmd / 0x10 % 2 == 1
}

/// SDO abort codes (CiA 301 §7.2.4.3.17).
#[derive(Debug, Clone, Copy, PartialEq, Eq, Structural)]
#[non_exhaustive]
pub enum SdoAbortCode {
    /// Toggle bit not alternated.
    ToggleBitNotAlternated,
    /// SDO protocol timed out.
    ProtocolTimedOut,
    /// Client/server command specifier not valid or unknown.
    CommandInvalid,
    /// Unsupported access to an object.
    UnsupportedAccess,
    /// Attempt to read a write-only object.
    ReadOfWriteOnly,
    /// Attempt to write a read-only object.
    WriteOfReadOnly,
    /// Object does not exist in the object dictionary.
    ObjectDoesNotExist,
    /// Data type does not match; length of service parameter too high.
    DataTypeMismatchLengthHigh,
    /// Data type does not match; length of service parameter too low.
    DataTypeMismatchLengthLow,
    /// Sub-index does not exist.
    SubIndexDoesNotExist,
    /// General error.
    General,
}

impl SdoAbortCode {
    /// The 32-bit code sent little-endian in bytes 4..8 of an abort frame.
    pub open spec fn spec_code(self) -> u32 {
        match self {
            SdoAbortCode::ToggleBitNotAlternated => 0x0503_0000,
            SdoAbortCode::ProtocolTimedOut => 0x0504_0000,
            SdoAbortCode::CommandInvalid => 0x0504_0001,
            SdoAbortCode::UnsupportedAccess => 0x0601_0000,
            SdoAbortCode::ReadOfWriteOnly => 0x0601_0001,
            SdoAbortCode::WriteOfReadOnly => 0x0601_0002,
            SdoAbortCode::ObjectDoesNotExist => 0x0602_0000,
            SdoAbortCode::DataTypeMismatchLengthHigh => 0x0607_0012,
            SdoAbortCode::DataTypeMismatchLengthLow => 0x0607_0013,
            SdoAbortCode::SubIndexDoesNotExist => 0x0609_0011,
            SdoAbortCode::General => 0x0800_0000,
        }
    }

    /// The 32-bit code sent little-endian in bytes 4..8 of an abort frame.
    pub fn code(self) -> (c: u32)
        ensures
            c == self.spec_code(),
    {
        match self {
            SdoAbortCode::ToggleBitNotAlternated => 0x0503_0000,
            SdoAbortCode::ProtocolTimedOut => 0x0504_0000,
            SdoAbortCode::CommandInvalid => 0x0504_0001,
            SdoAbortCode::UnsupportedAccess => 0x0601_0000,
            SdoAbortCode::ReadOfWriteOnly => 0x0601_0001,
            SdoAbortCode::WriteOfReadOnly => 0x0601_0002,
            SdoAbortCode::ObjectDoesNotExist => 0x0602_0000,
            SdoAbortCode::DataTypeMismatchLengthHigh => 0x0607_0012,
            SdoAbortCode::DataTypeMismatchLengthLow => 0x0607_0013,
            SdoAbortCode::SubIndexDoesNotExist => 0x0609_0011,
            SdoAbortCode::General => 0x0800_0000,
        }
    }
}

// --- Frames that carry an address ------------------------------------------

/// A frame with a command, the address of an object, and up to four bytes.
pub open spec fn addressed(cmd: u8, addr: Address, data: Seq<u8>) -> Seq<u8> {
    padded(seq![cmd] + le_bytes(addr.index as nat, 2) + seq![addr.subindex] + data)
}

/// The address in bytes 1..4 of a frame.
pub open spec fn address_in(f: Seq<u8>) -> Address {
    Address { index: le_value(f.subrange(1, 3)) as u16, subindex: f[3] }
}

/// The 32-bit number in bytes 4..8 of a frame.
pub open spec fn number_in(f: Seq<u8>) -> u32 {
    le_value(f.subrange(4, 8)) as u32
}

/// What an addressed frame carries.
pub proof fn lemma_addressed(cmd: u8, addr: Address, data: Seq<u8>)
    requires
        data.len() <= 4,
    ensures
        addressed(cmd, addr, data).len() == 8,
        addressed(cmd, addr, data)[0] == cmd,
        address_in(addressed(cmd, addr, data)) == addr,
        addressed(cmd, addr, data).subrange(4, 4 + data.len() as int) == data,
{
    lemma_byte_ranges();
    lemma_le_round_trip(addr.index as nat, 2);
    let f = addressed(cmd, addr, data);
    assert(f.subrange(1, 3) =~= le_bytes(addr.index as nat, 2));
    assert(f.subrange(4, 4 + data.len() as int) =~= data);
}

/// What an addressed frame with a number carries.
pub proof fn lemma_addressed_number(cmd: u8, addr: Address, number: u32)
    ensures
        ({
            let f = addressed(cmd, addr, le_bytes(number as nat, 4));
            &&& f.len() == 8
            &&& f[0] == cmd
            &&& address_in(f) == addr
            &&& number_in(f) == number
        }),
{
    lemma_byte_ranges();
    lemma_le_round_trip(number as nat, 4);
    lemma_addressed(cmd, addr, le_bytes(number as nat, 4));
}

/// Build a frame with a command, the address of an object, and up to four bytes.
pub(crate) fn addressed_frame(cmd: u8, addr: Address, data: &[u8]) -> (p: SdoPayload)
    requires
        data@.len() <= 4,
    ensures
        p@ == addressed(cmd, addr, data@),
{
    let index = u16_bytes(addr.index);
    proof {
        lemma_le_bytes_len(addr.index as nat, 2);
    }
    let head = [cmd, index[0], index[1], addr.subindex];
    let mut p = pad8(&head);
    let mut i: usize = 0;
    while i < data.len()
        invariant
            i <= data@.len() <= 4,
            head@.len() == 4,
            forall|j: int| 0 <= j < 4 ==> p@[j] == head@[j],
            forall|j: int| 0 <= j < i ==> p@[4 + j] == data@[j],
            forall|j: int| 4 + i <= j < 8 ==> p@[j] == 0,
        decreases data@.len() - i,
    {
        p[4 + i] = data[i];
        i += 1;
    }
    assert(p@ =~= addressed(cmd, addr, data@));
    p
}

/// Build a frame with a command, the address of an object, and a number.
pub(crate) fn numbered_frame(cmd: u8, addr: Address, number: u32) -> (p: SdoPayload)
    ensures
        p@ == addressed(cmd, addr, le_bytes(number as nat, 4)),
{
    let n = u32_bytes(number);
    proof {
        lemma_le_bytes_len(number as nat, 4);
    }
    addressed_frame(cmd, addr, &n)
}

/// The address that a frame names.
pub(crate) fn address_of(p: &SdoPayload) -> (addr: Address)
    ensures
        addr == address_in(p@),
{
    proof {
        lemma_byte_ranges();
    }
    let s: &[u8] = p;
    Address { index: from_le(&s[1..3]) as u16, subindex: p[3] }
}

/// The number in bytes 4..8 of a frame.
pub(crate) fn number_of(p: &SdoPayload) -> (n: u32)
    ensures
        n == number_in(p@),
{
    proof {
        lemma_byte_ranges();
    }
    let s: &[u8] = p;
    from_le(&s[4..8]) as u32
}

// === Expedited transfer ====================================================

/// The command byte of an expedited initiate frame with `len` data bytes.
pub open spec fn expedited_command(cs: u8, len: nat) -> u8 {
    (cs + (4 - len) * 4 + EXPEDITED_SIZED) as u8
}

/// The flags of an expedited command byte.
pub proof fn lemma_expedited_command(cs: u8, len: nat)
    requires
        cs == CCS_DOWNLOAD_INITIATE || cs == SCS_UPLOAD_INITIATE,
        1 <= len <= 4,
    ensures
        specifier(expedited_command(cs, len)) == cs,
        expedited_bit(expedited_command(cs, len)),
        low_bit(expedited_command(cs, len)),
        expedited_len(expedited_command(cs, len)) == len,
{
}

fn expedited_frame(cs: u8, addr: Address, value: &Value) -> (r: Result<SdoPayload>)
    requires
        cs == CCS_DOWNLOAD_INITIATE || cs == SCS_UPLOAD_INITIATE,
    ensures
        r is Ok <==> 1 <= value.encoding().len() <= 4,
        r matches Ok(p) ==> p@ == addressed(
            expedited_command(cs, value.encoding().len()),
            addr,
            value.encoding(),
        ),
        r matches Err(e) ==> e == Error::UnsupportedTransfer,
{
    let len: usize = value.size();
    if len == 0 || len > 4 {
        return Err(Error::UnsupportedTransfer);
    }
    let mut buf = [0u8; 4];
    match value.encode_le(&mut buf) {
        Ok(_) => {},
        Err(e) => {
            return Err(e);
        },
    }
    let data: &[u8] = &buf[0..len];
    assert(data@ =~= value.encoding());
    Ok(addressed_frame(cs + (4 - len) as u8 * 4 + EXPEDITED_SIZED, addr, data))
}

/// Encode an expedited SDO **download** (write) request writing `value` to
/// `addr`.
///
/// Returns [`Error::UnsupportedTransfer`] for values larger than four bytes,
/// and for empty ones, which require segmented transfer.
pub fn encode_download_expedited(addr: Address, value: &Value) -> (r: Result<SdoPayload>)
    ensures
        r is Ok <==> 1 <= value.encoding().len() <= 4,
        r matches Ok(p) ==> p@ == addressed(
            expedited_command(CCS_DOWNLOAD_INITIATE, value.encoding().len()),
            addr,
            value.encoding(),
        ),
        r matches Err(e) ==> e == Error::UnsupportedTransfer,
{
    expedited_frame(CCS_DOWNLOAD_INITIATE, addr, value)
}

/// Encode the server's **download response** (write confirmation) for `addr`.
pub fn encode_download_response(addr: Address) -> (p: SdoPayload)
    ensures
        p@ == addressed(SCS_DOWNLOAD_INITIATE, addr, Seq::empty()),
{
    let none: [u8; 0] = [];
    assert(none@ =~= Seq::empty());
    addressed_frame(SCS_DOWNLOAD_INITIATE, addr, &none)
}

/// Decode a server download response, returning the confirmed address.
pub fn decode_download_response(p: &SdoPayload) -> (r: Result<Address>)
    ensures
        r is Ok <==> p@[0] == SCS_DOWNLOAD_INITIATE,
        r matches Ok(addr) ==> addr == address_in(p@),
        r matches Err(e) ==> e == Error::UnexpectedCommand,
{
    if p[0] != SCS_DOWNLOAD_INITIATE {
        return Err(Error::UnexpectedCommand);
    }
    Ok(address_of(p))
}

/// Encode an SDO **upload** (read) request for `addr`.
pub fn encode_upload_request(addr: Address) -> (p: SdoPayload)
    ensures
        p@ == addressed(CCS_UPLOAD_INITIATE, addr, Seq::empty()),
{
    let none: [u8; 0] = [];
    assert(none@ =~= Seq::empty());
    addressed_frame(CCS_UPLOAD_INITIATE, addr, &none)
}

/// Encode the server's expedited **upload response** carrying `value` for
/// `addr`.
///
/// Returns [`Error::UnsupportedTransfer`] for values larger than four bytes,
/// and for empty ones.
pub fn encode_upload_expedited_response(addr: Address, value: &Value) -> (r: Result<SdoPayload>)
    ensures
        r is Ok <==> 1 <= value.encoding().len() <= 4,
        r matches Ok(p) ==> p@ == addressed(
            expedited_command(SCS_UPLOAD_INITIATE, value.encoding().len()),
            addr,
            value.encoding(),
        ),
        r matches Err(e) ==> e == Error::UnsupportedTransfer,
{
    expedited_frame(SCS_UPLOAD_INITIATE, addr, value)
}

/// Whether a frame is an expedited upload response that states its size.
pub open spec fn is_expedited_upload(f: Seq<u8>) -> bool {
    specifier(f[0]) == SCS_UPLOAD_INITIATE && expedited_bit(f[0]) && low_bit(f[0])
}

/// The data bytes of an expedited frame that states its size.
pub open spec fn expedited_data(f: Seq<u8>) -> Seq<u8> {
    f.subrange(4, 4 + expedited_len(f[0]))
}

/// What the client makes of an expedited upload response.
pub open spec fn expedited_upload_of(f: Seq<u8>, data_type: DataType) -> Result<(Address, Value)> {
    if !is_expedited_upload(f) {
        Err(Error::UnexpectedCommand)
    } else if !data_type.accepts_len(expedited_data(f).len()) {
        Err(Error::TypeMismatch)
    } else {
        Ok((address_in(f), decoded(data_type, expedited_data(f))))
    }
}

/// Decode an expedited upload response into `(address, value)`, interpreting
/// the inline data as `data_type` (the client knows the expected type from
/// its OD/EDS).
///
/// Returns [`Error::UnexpectedCommand`] if the frame is not an expedited
/// upload response, or [`Error::TypeMismatch`] if the server's data length
/// disagrees with `data_type`.
pub fn decode_upload_expedited_response(p: &SdoPayload, data_type: DataType) -> (r: Result<
    (Address, Value),
>)
    ensures
        r == expedited_upload_of(p@, data_type),
        r matches Ok((_, v)) ==> v.wf(),
{
    let cmd: u8 = p[0];
    // The specifier must be "upload initiate" and the frame expedited + sized.
    if specifier_of(cmd) != SCS_UPLOAD_INITIATE || cmd / 2 % 2 != 1 || cmd % 2 != 1 {
        return Err(Error::UnexpectedCommand);
    }
    let len: usize = (4 - cmd / 4 % 4) as usize;
    let s: &[u8] = p;
    match Value::decode_le(data_type, &s[4..4 + len]) {
        Ok(value) => Ok((address_of(p), value)),
        Err(_) => Err(Error::TypeMismatch),
    }
}

/// Encode an SDO **abort** for `addr` with `code`.
pub fn encode_abort(addr: Address, code: SdoAbortCode) -> (p: SdoPayload)
    ensures
        p@ == addressed(CS_ABORT, addr, le_bytes(code.spec_code() as nat, 4)),
{
    numbered_frame(CS_ABORT, addr, code.code())
}

/// Decode an SDO abort frame into `(address, raw_abort_code)`.
pub fn decode_abort(p: &SdoPayload) -> (r: Result<(Address, u32)>)
    ensures
        r is Ok <==> p@[0] == CS_ABORT,
        r matches Ok((addr, code)) ==> addr == address_in(p@) && code == number_in(p@),
        r matches Err(e) ==> e == Error::UnexpectedCommand,
{
    if p[0] != CS_ABORT {
        return Err(Error::UnexpectedCommand);
    }
    Ok((address_of(p), number_of(p)))
}

/// An abort decodes to the address and the code it was encoded from.
pub proof fn law_abort_round_trip(addr: Address, code: SdoAbortCode)
    ensures
        ({
            let f = addressed(CS_ABORT, addr, le_bytes(code.spec_code() as nat, 4));
            f[0] == CS_ABORT && address_in(f) == addr && number_in(f) == code.spec_code()
        }),
{
    lemma_addressed_number(CS_ABORT, addr, code.spec_code());
}

/// An expedited upload response carries its value: decoding it as the value's
/// own type gives back the address and the value.
pub proof fn law_expedited_round_trip(addr: Address, value: Value)
    requires
        value.wf(),
        1 <= value.encoding().len() <= 4,
    ensures
        expedited_upload_of(
            addressed(
                expedited_command(SCS_UPLOAD_INITIATE, value.encoding().len()),
                addr,
                value.encoding(),
            ),
            value.spec_data_type(),
        ) == Ok::<(Address, Value), Error>((addr, value)),
{
    lemma_expedited_command(SCS_UPLOAD_INITIATE, value.encoding().len());
    lemma_addressed(
        expedited_command(SCS_UPLOAD_INITIATE, value.encoding().len()),
        addr,
        value.encoding(),
    );
    Value::law_decode_encode(value);
}

// === Segmented transfer ====================================================
//
// For values that are not one to four bytes long, transfer proceeds in two
// phases: an *initiate* exchange declaring the total byte count, then a run of
// *segment* exchanges each carrying up to seven data bytes. A per-transfer
// *toggle* bit alternates on every segment (starting at 0) to detect lost or
// duplicated frames, and the final data segment sets the "no more segments"
// bit.
//
// The initiate *download response* (server) and initiate *upload request*
// (client) are byte-identical to the expedited case, so reuse
// [`encode_download_response`] / [`decode_download_response`] and
// [`encode_upload_request`] for them.

/// A decoded SDO data segment: its toggle bit, whether it is the last segment,
/// and the (borrowed) data bytes it carries.
///
/// The download-segment request (client → server) and the upload-segment
/// response (server → client) share this exact frame layout, so one type and
/// one codec serve both directions.
#[derive(Debug, Clone, Copy, PartialEq, Eq)]
pub struct Segment<'a> {
    /// The toggle bit for this segment (alternates each segment from `false`).
    pub toggle: bool,
    /// Whether this is the final segment of the transfer.
    pub last: bool,
    /// The segment's payload (up to 7 bytes).
    pub data: &'a [u8],
}

/// Encode a client **segmented download initiate** request declaring a
/// `size`-byte transfer to `addr` (command `0x21`).
pub fn encode_download_initiate_segmented(addr: Address, size: u32) -> (p: SdoPayload)
    ensures
        p@ == addressed(0x21, addr, le_bytes(size as nat, 4)),
{
    numbered_frame(CCS_DOWNLOAD_INITIATE + SIZE_INDICATED, addr, size)
}

/// Whether a command byte begins a segmented transfer and states its size.
pub open spec fn is_segmented_initiate(cs: u8, cmd: u8) -> bool {
    specifier(cmd) == cs && !expedited_bit(cmd) && low_bit(cmd)
}

fn decode_segmented_initiate(cs: u8, p: &SdoPayload) -> (r: Result<(Address, u32)>)
    ensures
        r is Ok <==> is_segmented_initiate(cs, p@[0]),
        r matches Ok((addr, size)) ==> addr == address_in(p@) && size == number_in(p@),
        r matches Err(e) ==> e == Error::UnexpectedCommand,
{
    let cmd: u8 = p[0];
    if specifier_of(cmd) != cs || cmd / 2 % 2 == 1 || cmd % 2 == 0 {
        return Err(Error::UnexpectedCommand);
    }
    Ok((address_of(p), number_of(p)))
}

/// Decode a download initiate request into `(address, size)`, requiring a
/// segmented (non-expedited), size-indicated request.
pub fn decode_download_initiate_segmented(p: &SdoPayload) -> (r: Result<(Address, u32)>)
    ensures
        r is Ok <==> is_segmented_initiate(CCS_DOWNLOAD_INITIATE, p@[0]),
        r matches Ok((addr, size)) ==> addr == address_in(p@) && size == number_in(p@),
        r matches Err(e) ==> e == Error::UnexpectedCommand,
{
    decode_segmented_initiate(CCS_DOWNLOAD_INITIATE, p)
}

/// Encode the server's **segmented upload initiate response** declaring a
/// `size`-byte transfer for `addr` (command `0x41`).
pub fn encode_upload_initiate_segmented_response(addr: Address, size: u32) -> (p: SdoPayload)
    ensures
        p@ == addressed(0x41, addr, le_bytes(size as nat, 4)),
{
    numbered_frame(SCS_UPLOAD_INITIATE + SIZE_INDICATED, addr, size)
}

/// Decode a segmented upload initiate response into `(address, size)`.
///
/// Returns [`Error::UnexpectedCommand`] if the frame is not an upload initiate
/// response, or if it is expedited (use [`decode_upload_expedited_response`]
/// for that case).
pub fn decode_upload_initiate_segmented_response(p: &SdoPayload) -> (r: Result<(Address, u32)>)
    ensures
        r is Ok <==> is_segmented_initiate(SCS_UPLOAD_INITIATE, p@[0]),
        r matches Ok((addr, size)) ==> addr == address_in(p@) && size == number_in(p@),
        r matches Err(e) ==> e == Error::UnexpectedCommand,
{
    decode_segmented_initiate(SCS_UPLOAD_INITIATE, p)
}

/// A segmented initiate decodes to the address and size it was encoded from, in
/// both directions, and is never taken for an expedited frame.
pub proof fn law_segmented_initiate_round_trip(addr: Address, size: u32)
    ensures
        ({
            let download = addressed(0x21, addr, le_bytes(size as nat, 4));
            let upload = addressed(0x41, addr, le_bytes(size as nat, 4));
            &&& is_segmented_initiate(CCS_DOWNLOAD_INITIATE, download[0])
            &&& address_in(download) == addr && number_in(download) == size
            &&& is_segmented_initiate(SCS_UPLOAD_INITIATE, upload[0])
            &&& address_in(upload) == addr && number_in(upload) == size
            &&& !is_expedited_upload(upload)
        }),
{
    lemma_addressed_number(0x21, addr, size);
    lemma_addressed_number(0x41, addr, size);
}

/// The command byte of a data segment: the number of unused bytes in bits 3..1,
/// the toggle in bit 4, the last flag in bit 0.
pub open spec fn segment_command(len: nat, toggle: bool, last: bool) -> u8 {
    ((7 - len) * 2 + (if toggle {
        0x10int
    } else {
        0
    }) + (if last {
        1int
    } else {
        0
    })) as u8
}

/// The frame of a data segment.
pub open spec fn segment_frame(data: Seq<u8>, toggle: bool, last: bool) -> Seq<u8> {
    padded(seq![segment_command(data.len(), toggle, last)] + data)
}

/// The data bytes of a data segment.
pub open spec fn segment_data(f: Seq<u8>) -> Seq<u8> {
    f.subrange(1, 8 - f[0] / 2 % 8)
}

/// A data segment decodes to the bytes and flags it was encoded from.
pub proof fn law_segment_round_trip(data: Seq<u8>, toggle: bool, last: bool)
    requires
        data.len() <= 7,
    ensures
        ({
            let f = segment_frame(data, toggle, last);
            &&& f.len() == 8
            &&& specifier(f[0]) == CCS_DOWNLOAD_SEGMENT
            &&& toggle_bit(f[0]) == toggle
            &&& low_bit(f[0]) == last
            &&& segment_data(f) == data
            &&& f[0] != CS_ABORT
        }),
{
    let f = segment_frame(data, toggle, last);
    assert(f[0] == segment_command(data.len(), toggle, last));
    assert(segment_data(f) =~= data);
}

/// The frame of a data segment with up to seven bytes; none at all in the
/// single segment of an empty value.
pub(crate) fn data_segment(data: &[u8], toggle: bool, last: bool) -> (p: SdoPayload)
    requires
        data@.len() <= 7,
    ensures
        p@ == segment_frame(data@, toggle, last),
{
    let mut cmd: u8 = (SEGMENT_DATA_MAX - data.len()) as u8 * 2;
    if toggle {
        cmd = cmd + TOGGLE;
    }
    if last {
        cmd = cmd + NO_MORE_SEGMENTS;
    }
    let mut p = pad8(&[cmd]);
    let mut i: usize = 0;
    while i < data.len()
        invariant
            i <= data@.len() <= 7,
            p@[0] == cmd,
            forall|j: int| 0 <= j < i ==> p@[1 + j] == data@[j],
            forall|j: int| 1 + i <= j < 8 ==> p@[j] == 0,
        decreases data@.len() - i,
    {
        p[1 + i] = data[i];
        i += 1;
    }
    assert(p@ =~= segment_frame(data@, toggle, last));
    p
}

/// Encode a **data segment** carrying 1..=7 bytes of `data`.
///
/// Used for both the download-segment request and the upload-segment response
/// (identical layout). `toggle` alternates each segment (the first is
/// `false`); `last` marks the final segment. Returns [`Error::BadLength`]
/// unless `data` is 1..=7 bytes.
pub fn encode_data_segment(data: &[u8], toggle: bool, last: bool) -> (r: Result<SdoPayload>)
    ensures
        r is Ok <==> 1 <= data@.len() <= 7,
        r matches Ok(p) ==> p@ == segment_frame(data@, toggle, last),
        r matches Err(e) ==> e == Error::BadLength,
{
    if data.len() == 0 || data.len() > SEGMENT_DATA_MAX {
        return Err(Error::BadLength);
    }
    Ok(data_segment(data, toggle, last))
}

/// Decode a **data segment** frame (download request or upload response).
pub fn decode_data_segment(p: &SdoPayload) -> (r: Result<Segment<'_>>)
    ensures
        r is Ok <==> specifier(p@[0]) == CCS_DOWNLOAD_SEGMENT,
        r matches Ok(seg) ==> {
            &&& seg.toggle == toggle_bit(p@[0])
            &&& seg.last == low_bit(p@[0])
            &&& seg.data@ == segment_data(p@)
        },
        r matches Err(e) ==> e == Error::UnexpectedCommand,
{
    let cmd: u8 = p[0];
    if specifier_of(cmd) != CCS_DOWNLOAD_SEGMENT {
        return Err(Error::UnexpectedCommand);
    }
    let n: usize = (cmd / 2 % 8) as usize;
    let s: &[u8] = p;
    Ok(Segment { toggle: toggle_of(cmd), last: cmd % 2 == 1, data: &s[1..8 - n] })
}

/// A frame that carries a command specifier and a toggle bit alone.
pub open spec fn toggle_frame(cs: u8, toggle: bool) -> Seq<u8> {
    padded(
        seq![
            (cs + if toggle {
                0x10int
            } else {
                0
            }) as u8,
        ],
    )
}

/// What a frame that carries a toggle bit holds.
pub proof fn law_toggle_frame_round_trip(cs: u8, toggle: bool)
    requires
        cs == SCS_DOWNLOAD_SEGMENT || cs == CCS_UPLOAD_SEGMENT,
    ensures
        toggle_frame(cs, toggle).len() == 8,
        specifier(toggle_frame(cs, toggle)[0]) == cs,
        toggle_bit(toggle_frame(cs, toggle)[0]) == toggle,
        toggle_frame(cs, toggle)[0] != CS_ABORT,
{
}

fn encode_toggle(cs: u8, toggle: bool) -> (p: SdoPayload)
    requires
        cs <= 0x60,
    ensures
        p@ == toggle_frame(cs, toggle),
{
    let cmd: u8 = if toggle {
        cs + TOGGLE
    } else {
        cs
    };
    let b = [cmd];
    assert(b@ =~= seq![cmd]);
    pad8(&b)
}

/// Encode the server's **download segment response** (acknowledgement) with the
/// segment's `toggle` bit (command `0x20 | toggle`).
pub fn encode_download_segment_response(toggle: bool) -> (p: SdoPayload)
    ensures
        p@ == toggle_frame(SCS_DOWNLOAD_SEGMENT, toggle),
{
    encode_toggle(SCS_DOWNLOAD_SEGMENT, toggle)
}

/// Decode a download segment response, returning its toggle bit.
pub fn decode_download_segment_response(p: &SdoPayload) -> (r: Result<bool>)
    ensures
        r is Ok <==> specifier(p@[0]) == SCS_DOWNLOAD_SEGMENT,
        r matches Ok(t) ==> t == toggle_bit(p@[0]),
        r matches Err(e) ==> e == Error::UnexpectedCommand,
{
    if specifier_of(p[0]) != SCS_DOWNLOAD_SEGMENT {
        return Err(Error::UnexpectedCommand);
    }
    Ok(toggle_of(p[0]))
}

/// Encode the client's **upload segment request** (poll for the next segment)
/// with the expected `toggle` bit (command `0x60 | toggle`).
pub fn encode_upload_segment_request(toggle: bool) -> (p: SdoPayload)
    ensures
        p@ == toggle_frame(CCS_UPLOAD_SEGMENT, toggle),
{
    encode_toggle(CCS_UPLOAD_SEGMENT, toggle)
}

/// Decode an upload segment request, returning its toggle bit.
pub fn decode_upload_segment_request(p: &SdoPayload) -> (r: Result<bool>)
    ensures
        r is Ok <==> specifier(p@[0]) == CCS_UPLOAD_SEGMENT,
        r matches Ok(t) ==> t == toggle_bit(p@[0]),
        r matches Err(e) ==> e == Error::UnexpectedCommand,
{
    if specifier_of(p[0]) != CCS_UPLOAD_SEGMENT {
        return Err(Error::UnexpectedCommand);
    }
    Ok(toggle_of(p[0]))
}

/// The longest encoding of a number.
pub const NUMBER_LEN_MAX: usize = 8;

/// How many bytes a segmented transfer of a value of this type buffers: a
/// number never needs more than eight, a variable-length value up to
/// [`MAX_STRING_LEN`].
pub open spec fn transfer_limit(data_type: DataType) -> nat {
    match data_type.spec_fixed_size() {
        Some(_) => NUMBER_LEN_MAX as nat,
        None => MAX_STRING_LEN as nat,
    }
}

/// Whether a transfer of a value of this type has room for `more` bytes behind
/// those of `buf`.
pub(crate) fn transfer_has_room(data_type: DataType, buf: &[u8], more: &[u8]) -> (b: bool)
    ensures
        b == (buf@.len() + more@.len() <= transfer_limit(data_type)),
{
    let limit: usize = if data_type.is_variable() {
        MAX_STRING_LEN
    } else {
        NUMBER_LEN_MAX
    };
    buf.len() <= limit && more.len() <= limit - buf.len()
}

/// How many bytes the next segment carries when `remaining` are left.
pub open spec fn segment_len(remaining: int) -> int {
    if remaining <= 7 {
        remaining
    } else {
        7
    }
}

/// The segment of `data` that starts at `pos`.
pub open spec fn segment_at(data: Seq<u8>, pos: int, toggle: bool) -> Seq<u8> {
    let n = segment_len(data.len() - pos);
    segment_frame(data.subrange(pos, pos + n), toggle, data.len() - pos <= 7)
}

/// Splits a byte buffer into SDO download data segments, tracking the toggle
/// bit. Drive it after a successful download-initiate handshake: emit each
/// frame, await its acknowledgement, then take the next.
#[derive(Debug)]
pub struct SegmentWriter<'a> {
    data: &'a [u8],
    pos: usize,
    toggle: bool,
}

impl<'a> SegmentWriter<'a> {
    /// The bytes being split.
    pub closed spec fn data(self) -> Seq<u8> {
        self.data@
    }

    /// How many bytes have been emitted.
    pub closed spec fn pos(self) -> int {
        self.pos as int
    }

    /// The toggle bit of the next segment.
    pub closed spec fn toggle(self) -> bool {
        self.toggle
    }

    /// No more bytes have been emitted than there are.
    pub open spec fn wf(self) -> bool {
        0 <= self.pos() <= self.data().len()
    }

    /// Start splitting `data` (which should be the value already declared in
    /// the initiate request).
    pub fn new(data: &'a [u8]) -> (w: Self)
        ensures
            w.wf(),
            w.data() == data@,
            w.pos() == 0,
            !w.toggle(),
    {
        Self { data, pos: 0, toggle: false }
    }

    /// Whether every byte has been emitted.
    pub fn is_done(&self) -> (b: bool)
        ensures
            b == (self.pos() >= self.data().len()),
    {
        self.pos >= self.data.len()
    }

    /// Produce the next download data-segment frame, or `None` when finished.
    pub fn next_segment(&mut self) -> (r: Option<SdoPayload>)
        requires
            old(self).wf(),
        ensures
            final(self).wf(),
            final(self).data() == old(self).data(),
            r is None <==> old(self).pos() >= old(self).data().len(),
            r is None ==> *final(self) == *old(self),
            r matches Some(p) ==> {
                &&& p@ == segment_at(old(self).data(), old(self).pos(), old(self).toggle())
                &&& final(self).pos() == old(self).pos() + segment_len(
                    old(self).data().len() - old(self).pos(),
                )
                &&& final(self).toggle() == !old(self).toggle()
            },
    {
        if self.is_done() {
            return None;
        }
        let remaining: usize = self.data.len() - self.pos;
        let last = remaining <= SEGMENT_DATA_MAX;
        let len: usize = if last {
            remaining
        } else {
            SEGMENT_DATA_MAX
        };
        let frame = data_segment(&self.data[self.pos..self.pos + len], self.toggle, last);
        self.pos = self.pos + len;
        self.toggle = !self.toggle;
        Some(frame)
    }
}

/// The state of a reassembly.
pub struct Reassembly {
    /// The bytes received so far.
    pub data: Seq<u8>,
    /// The toggle bit that the next segment must carry.
    pub toggle: bool,
    /// Whether the last segment has been received.
    pub done: bool,
}

impl Reassembly {
    /// Nothing received yet.
    pub open spec fn start() -> Reassembly {
        Reassembly { data: Seq::empty(), toggle: false, done: false }
    }

    /// The reassembly after a segment, with room for `capacity` bytes, or why
    /// the segment is refused.
    pub open spec fn push(self, toggle: bool, last: bool, data: Seq<u8>, capacity: nat) -> Result<
        Reassembly,
    > {
        if self.done {
            Err(Error::UnexpectedCommand)
        } else if toggle != self.toggle {
            Err(Error::ToggleMismatch)
        } else if self.data.len() + data.len() > capacity {
            Err(Error::Overflow)
        } else {
            Ok(Reassembly { data: self.data + data, toggle: !self.toggle, done: last })
        }
    }
}

/// Reassembles SDO upload data segments into a bounded buffer of capacity `N`,
/// tracking and validating the toggle bit. Push each decoded [`Segment`] until
/// [`SegmentReader::is_done`], then read [`SegmentReader::data`].
#[derive(Debug)]
pub struct SegmentReader<const N: usize> {
    buf: Vec<u8>,
    toggle: bool,
    done: bool,
}

impl<const N: usize> View for SegmentReader<N> {
    type V = Reassembly;

    closed spec fn view(&self) -> Reassembly {
        Reassembly { data: self.buf@, toggle: self.toggle, done: self.done }
    }
}

impl<const N: usize> Default for SegmentReader<N> {
    fn default() -> (r: Self)
        ensures
            r@ == Reassembly::start(),
    {
        Self::new()
    }
}

impl<const N: usize> SegmentReader<N> {
    /// The capacity is not exceeded.
    pub open spec fn wf(self) -> bool {
        self@.data.len() <= N
    }

    /// A new, empty reassembler.
    pub fn new() -> (r: Self)
        ensures
            r@ == Reassembly::start(),
            r.wf(),
    {
        let r = Self { buf: Vec::new(), toggle: false, done: false };
        assert(r@.data =~= Seq::empty());
        r
    }

    /// Whether the final segment has been received.
    pub fn is_done(&self) -> (b: bool)
        ensures
            b == self@.done,
    {
        self.done
    }

    /// The reassembled bytes so far.
    pub fn data(&self) -> (d: &[u8])
        ensures
            d@ == self@.data,
    {
        self.buf.as_slice()
    }

    /// Append a decoded segment.
    ///
    /// Returns [`Error::ToggleMismatch`] if the segment's toggle bit is out of
    /// sequence, [`Error::UnexpectedCommand`] if the transfer is already
    /// complete, or [`Error::Overflow`] if the data exceeds capacity `N`.
    pub fn push(&mut self, segment: &Segment) -> (r: Result<()>)
        requires
            old(self).wf(),
        ensures
            final(self).wf(),
            match old(self)@.push(segment.toggle, segment.last, segment.data@, N as nat) {
                Ok(after) => r is Ok && final(self)@ == after,
                Err(e) => r == Err::<(), Error>(e) && final(self)@ == old(self)@,
            },
    {
        if self.done {
            return Err(Error::UnexpectedCommand);
        }
        if segment.toggle != self.toggle {
            return Err(Error::ToggleMismatch);
        }
        if segment.data.len() > N - self.buf.len() {
            return Err(Error::Overflow);
        }
        self.buf.extend_from_slice(segment.data);
        self.toggle = !self.toggle;
        if segment.last {
            self.done = true;
        }
        assert(self@.data =~= old(self)@.data + segment.data@);
        Ok(())
    }
}

/// What a reader of capacity `capacity` holds when it has received the segments
/// of `data` from `pos` on.
pub open spec fn reassembled(
    r: Reassembly,
    data: Seq<u8>,
    pos: int,
    toggle: bool,
    capacity: nat,
) -> Result<Reassembly>
    decreases data.len() - pos,
{
    if pos >= data.len() {
        Ok(r)
    } else {
        let f = segment_at(data, pos, toggle);
        match r.push(toggle_bit(f[0]), low_bit(f[0]), segment_data(f), capacity) {
            Ok(next) => reassembled(
                next,
                data,
                pos + segment_len(data.len() - pos),
                !toggle,
                capacity,
            ),
            Err(e) => Err(e),
        }
    }
}

/// The segments of a value, pushed in order, give the value back: the reader
/// ends with exactly the bytes that were split, and knows that it is done.
pub proof fn law_segments_reassemble(data: Seq<u8>, capacity: nat)
    requires
        1 <= data.len() <= capacity,
    ensures
        reassembled(Reassembly::start(), data, 0, false, capacity) matches Ok(r) && r.data == data
            && r.done,
{
    assert(data.subrange(0, 0) =~= Seq::empty());
    lemma_reassembled(Reassembly::start(), data, 0, false, capacity);
}

proof fn lemma_reassembled(r: Reassembly, data: Seq<u8>, pos: int, toggle: bool, capacity: nat)
    requires
        0 <= pos < data.len() <= capacity,
        r.data == data.subrange(0, pos),
        r.toggle == toggle,
        !r.done,
    ensures
        reassembled(r, data, pos, toggle, capacity) matches Ok(end) && end.data == data && end.done,
    decreases data.len() - pos,
{
    let n = segment_len(data.len() - pos);
    let part = data.subrange(pos, pos + n);
    law_segment_round_trip(part, toggle, data.len() - pos <= 7);
    assert(data.subrange(0, pos) + part =~= data.subrange(0, pos + n));
    let next = Reassembly {
        data: data.subrange(0, pos + n),
        toggle: !toggle,
        done: data.len() - pos <= 7,
    };
    let f = segment_at(data, pos, toggle);
    assert(r.push(toggle_bit(f[0]), low_bit(f[0]), segment_data(f), capacity) == Ok::<
        Reassembly,
        Error,
    >(next));
    assert(reassembled(r, data, pos, toggle, capacity) == reassembled(
        next,
        data,
        pos + n,
        !toggle,
        capacity,
    ));
    if pos + n < data.len() {
        lemma_reassembled(next, data, pos + n, !toggle, capacity);
    } else {
        assert(data.subrange(0, pos + n) =~= data);
        assert(reassembled(next, data, pos + n, !toggle, capacity) == Ok::<Reassembly, Error>(next));
    }
}

} // verus!
