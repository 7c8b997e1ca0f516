//! SDO **block** transfer (CiA 301 §7.2.4.3) — high-throughput bulk transfer.
//!
//! Where segmented transfer acknowledges every 7-byte segment, block transfer
//! streams a whole *sub-block* of up to 127 segments before a single
//! acknowledgement, then verifies the transfer with a CRC. This module
//! implements both directions — client→server **download** and server→client
//! **upload** — as frame codecs plus the CRC-16 ([`crc16`]) and the
//! [`BlockWriter`] / [`BlockReceiver`] helpers that split and reassemble the
//! data on the happy path (in-order, no retransmission).
//!
//! Block download and upload are mirror images: several frames (the sub-block
//! segment, sub-block response, end, and end-response) are byte-identical in
//! both directions and share one codec here; only the initiate handshake and
//! the upload *start* frame differ.
use vstd::prelude::*;

use crate::frame::{pad8, padded};
use crate::little_endian::{
    from_le, le_bytes, le_value, lemma_byte_ranges, lemma_le_bytes_len, lemma_le_round_trip,
    u16_bytes,
};
use crate::object_dictionary::Address;
use crate::sdo::{
    address_in, address_of, addressed, addressed_frame, lemma_addressed, lemma_addressed_number,
    number_in, number_of, numbered_frame, segment_len, specifier, specifier_of, SdoPayload,
};
use crate::types::{Error, Result};

pub mod laws;

verus! {

/// Command specifier `110b`: download client and upload server.
pub const CS_6: u8 = 0xC0;

/// Command specifier `101b`: download server and upload client.
pub const CS_5: u8 = 0xA0;

/// The CRC-support bit of an initiate frame.
pub const CRC_SUPPORTED: u8 = 0x04;

/// The size-indicated bit of an initiate frame.
pub const SIZE_INDICATED: u8 = 0x02;

/// Sub-command: end.
pub const SUBCMD_END: u8 = 0x01;

/// Sub-command: sub-block response.
pub const SUBCMD_RESPONSE: u8 = 0x02;

/// Sub-command: start upload.
pub const SUBCMD_START: u8 = 0x03;

/// The last-segment bit of a sub-block segment.
pub const LAST_SEGMENT: u8 = 0x80;

/// Maximum data bytes in one sub-block segment.
pub const SEGMENT_DATA_MAX: usize = 7;

/// Maximum segments in one sub-block.
pub const MAX_BLKSIZE: u8 = 127;

// --- CRC -------------------------------------------------------------------

/// One bit of the CRC: shift left, and subtract the polynomial `0x1021` where a
/// one was shifted out.
pub open spec fn crc_shift(crc: u16) -> u16 {
    if crc & 0x8000 != 0 {
        (crc << 1) ^ 0x1021
    } else {
        crc << 1
    }
}

/// `n` bits of the CRC.
pub open spec fn crc_shifts(crc: u16, n: nat) -> u16
    decreases n,
{
    if n == 0 {
        crc
    } else {
        crc_shift(crc_shifts(crc, (n - 1) as nat))
    }
}

/// The CRC-16/XMODEM of `data`: initial value zero, each byte added into the
/// high half before its eight shifts.
pub open spec fn crc_of(data: Seq<u8>) -> u16
    decreases data.len(),
{
    if data.len() == 0 {
        0
    } else {
        crc_shifts(crc_of(data.drop_last()) ^ ((data.last() as u16) << 8), 8)
    }
}

/// CRC-16/XMODEM (CCITT, polynomial `0x1021`, initial value `0`), computed over
/// the complete transferred data — the checksum CANopen block transfer uses.
pub fn crc16(data: &[u8]) -> (crc: u16)
    ensures
        crc == crc_of(data@),
{
    let mut crc: u16 = 0;
    let mut i: usize = 0;
    while i < data.len()
        invariant
            i <= data@.len(),
            crc == crc_of(data@.take(i as int)),
        decreases data@.len() - i,
    {
        let ghost before = crc;
        let start: u16 = crc ^ ((data[i] as u16) << 8);
        crc = start;
        let mut k: u8 = 0;
        while k < 8
            invariant
                k <= 8,
                crc == crc_shifts(start, k as nat),
            decreases 8 - k,
        {
            crc =
            if crc & 0x8000 != 0 {
                (crc << 1) ^ 0x1021
            } else {
                crc << 1
            };
            k += 1;
        }
        assert(data@.take(i + 1).drop_last() =~= data@.take(i as int));
        i += 1;
    }
    assert(data@.take(data@.len() as int) =~= data@);
    crc
}

// --- Initiate handshake ----------------------------------------------------

/// The size-carrying initiate frame: a download-initiate *request* or an
/// upload-initiate *response*.
#[derive(Debug, Clone, Copy, PartialEq, Eq, Structural)]
pub struct BlockInitiate {
    /// The object being transferred.
    pub address: Address,
    /// The declared total size in bytes, if indicated.
    pub size: Option<u32>,
    /// Whether the sender supports the end-of-transfer CRC.
    pub crc_support: bool,
}

/// The blksize-carrying initiate frame: a download-initiate *response* or an
/// upload-initiate *request*.
#[derive(Debug, Clone, Copy, PartialEq, Eq, Structural)]
pub struct BlockNegotiation {
    /// The object being transferred.
    pub address: Address,
    /// Segments allowed per sub-block before an acknowledgement (`1..=127`).
    pub blksize: u8,
    /// Whether the sender supports the end-of-transfer CRC.
    pub crc_support: bool,
}

/// A decoded sub-block segment.
#[derive(Debug, Clone, Copy, PartialEq, Eq)]
pub struct SubSegment<'a> {
    /// The sequence number within the sub-block (`1..=blksize`).
    pub seqno: u8,
    /// Whether this is the last segment of the whole transfer.
    pub last: bool,
    /// The segment's seven raw payload bytes (the final segment's unused tail
    /// is trimmed later using the end frame's byte count).
    pub data: &'a [u8],
}

/// `bit` where `set` holds, else zero.
pub open spec fn flag(set: bool, bit: u8) -> int {
    if set {
        bit as int
    } else {
        0
    }
}

/// Whether bit 2 (CRC support) of an initiate command is set.
pub open spec fn crc_bit(cmd: u8) -> bool {
    cmd / CRC_SUPPORTED % 2 == 1
}

/// Whether bit 1 (size indicated) of an initiate command is set.
pub open spec fn size_bit(cmd: u8) -> bool {
    cmd / SIZE_INDICATED % 2 == 1
}

/// An initiate frame that carries a size, where one is given.
pub open spec fn sized_initiate(cs: u8, m: BlockInitiate) -> Seq<u8> {
    addressed(
        (cs + flag(m.crc_support, CRC_SUPPORTED) + flag(m.size is Some, SIZE_INDICATED)) as u8,
        m.address,
        match m.size {
            Some(size) => le_bytes(size as nat, 4),
            None => Seq::empty(),
        },
    )
}

/// What a size-carrying initiate frame says. On it bit 1 is the size flag, so
/// the sub-command is bit 0 alone.
pub open spec fn sized_initiate_of(cs: u8, f: Seq<u8>) -> Result<BlockInitiate> {
    if specifier(f[0]) != cs || f[0] % 2 == 1 {
        Err(Error::UnexpectedCommand)
    } else {
        Ok(
            BlockInitiate {
                address: address_in(f),
                size: if size_bit(f[0]) {
                    Some(number_in(f))
                } else {
                    None
                },
                crc_support: crc_bit(f[0]),
            },
        )
    }
}

/// An initiate frame that carries the number of segments per sub-block.
pub open spec fn negotiation(cs: u8, m: BlockNegotiation) -> Seq<u8> {
    addressed((cs + flag(m.crc_support, CRC_SUPPORTED)) as u8, m.address, seq![m.blksize])
}

/// What a blksize-carrying initiate frame says.
pub open spec fn negotiation_of(cs: u8, f: Seq<u8>) -> Result<BlockNegotiation> {
    if specifier(f[0]) != cs || f[0] % 4 != 0 {
        Err(Error::UnexpectedCommand)
    } else {
        Ok(
            BlockNegotiation {
                address: address_in(f),
                blksize: f[4],
                crc_support: crc_bit(f[0]),
            },
        )
    }
}

/// A size-carrying initiate frame decodes to what it was encoded from.
pub proof fn law_sized_initiate_round_trip(m: BlockInitiate)
    ensures
        sized_initiate_of(CS_6, sized_initiate(CS_6, m)) == Ok::<BlockInitiate, Error>(m),
{
    let cmd = (CS_6 + flag(m.crc_support, CRC_SUPPORTED) + flag(m.size is Some, SIZE_INDICATED)) as u8;
    assert(specifier(cmd) == CS_6 && cmd % 2 == 0 && size_bit(cmd) == (m.size is Some) && crc_bit(
        cmd,
    ) == m.crc_support);
    match m.size {
        Some(size) => lemma_addressed_number(cmd, m.address, size),
        None => lemma_addressed(cmd, m.address, Seq::empty()),
    }
}

/// A blksize-carrying initiate frame decodes to what it was encoded from.
pub proof fn law_negotiation_round_trip(m: BlockNegotiation)
    ensures
        negotiation_of(CS_5, negotiation(CS_5, m)) == Ok::<BlockNegotiation, Error>(m),
{
    let cmd = (CS_5 + flag(m.crc_support, CRC_SUPPORTED)) as u8;
    assert(specifier(cmd) == CS_5 && cmd % 4 == 0 && crc_bit(cmd) == m.crc_support);
    let f = negotiation(CS_5, m);
    lemma_addressed(cmd, m.address, seq![m.blksize]);
    assert(f.subrange(4, 5)[0] == f[4]);
}

/// Encode a client **block-download initiate** request (`CS_6`).
pub fn encode_download_initiate(addr: Address, size: Option<u32>, crc_support: bool) -> (p:
    SdoPayload)
    ensures
        p@ == sized_initiate(CS_6, (BlockInitiate { address: addr, size, crc_support })),
{
    encode_initiate_with_size(CS_6, addr, size, crc_support)
}

/// Decode a block-download initiate request.
pub fn decode_download_initiate(p: &SdoPayload) -> (r: Result<BlockInitiate>)
    ensures
        r == sized_initiate_of(CS_6, p@),
{
    decode_initiate_with_size(CS_6, p)
}

/// Encode the server's **block-download initiate response** (`CS_5`).
pub fn encode_download_initiate_response(addr: Address, blksize: u8, crc_support: bool) -> (p:
    SdoPayload)
    ensures
        p@ == negotiation(CS_5, (BlockNegotiation { address: addr, blksize, crc_support })),
{
    encode_initiate_with_blksize(CS_5, addr, blksize, crc_support)
}

/// Decode a block-download initiate response.
pub fn decode_download_initiate_response(p: &SdoPayload) -> (r: Result<BlockNegotiation>)
    ensures
        r == negotiation_of(CS_5, p@),
{
    decode_initiate_with_blksize(CS_5, p)
}

/// Encode a client **block-upload initiate** request (`CS_5`).
pub fn encode_upload_initiate(addr: Address, blksize: u8, crc_support: bool) -> (p: SdoPayload)
    ensures
        p@ == negotiation(CS_5, (BlockNegotiation { address: addr, blksize, crc_support })),
{
    encode_initiate_with_blksize(CS_5, addr, blksize, crc_support)
}

/// Decode a block-upload initiate request.
pub fn decode_upload_initiate(p: &SdoPayload) -> (r: Result<BlockNegotiation>)
    ensures
        r == negotiation_of(CS_5, p@),
{
    decode_initiate_with_blksize(CS_5, p)
}

/// Encode the server's **block-upload initiate response** (`CS_6`).
pub fn encode_upload_initiate_response(addr: Address, size: Option<u32>, crc_support: bool) -> (p:
    SdoPayload)
    ensures
        p@ == sized_initiate(CS_6, (BlockInitiate { address: addr, size, crc_support })),
{
    encode_initiate_with_size(CS_6, addr, size, crc_support)
}

/// Decode a block-upload initiate response.
pub fn decode_upload_initiate_response(p: &SdoPayload) -> (r: Result<BlockInitiate>)
    ensures
        r == sized_initiate_of(CS_6, p@),
{
    decode_initiate_with_size(CS_6, p)
}

/// Encode the client's **start block-upload** request, telling the server to
/// begin streaming segments (`CS_5`, sub-command start).
pub fn encode_upload_start() -> (p: SdoPayload)
    ensures
        p@ == padded(seq![0xA3u8]),
{
    let b = [CS_5 + SUBCMD_START];
    assert(b@ =~= seq![0xA3u8]);
    pad8(&b)
}

/// Whether a frame carries the given specifier and sub-command (bits 1..0).
pub open spec fn is_subcommand(f: Seq<u8>, cs: u8, subcmd: u8) -> bool {
    specifier(f[0]) == cs && f[0] % 4 == subcmd
}

/// Decode a start block-upload request.
pub fn decode_upload_start(p: &SdoPayload) -> (r: Result<()>)
    ensures
        r is Ok <==> is_subcommand(p@, CS_5, SUBCMD_START),
        r matches Err(e) ==> e == Error::UnexpectedCommand,
{
    if specifier_of(p[0]) != CS_5 || p[0] % 4 != SUBCMD_START {
        return Err(Error::UnexpectedCommand);
    }
    Ok(())
}

fn encode_initiate_with_size(cs: u8, addr: Address, size: Option<u32>, crc: bool) -> (p: SdoPayload)
    requires
        cs <= CS_6,
    ensures
        p@ == sized_initiate(cs, (BlockInitiate { address: addr, size, crc_support: crc })),
{
    let mut cmd: u8 = cs;
    if crc {
        cmd = cmd + CRC_SUPPORTED;
    }
    match size {
        Some(size) => numbered_frame(cmd + SIZE_INDICATED, addr, size),
        None => {
            let none: [u8; 0] = [];
            assert(none@ =~= Seq::empty());
            addressed_frame(cmd, addr, &none)
        },
    }
}

fn decode_initiate_with_size(cs: u8, p: &SdoPayload) -> (r: Result<BlockInitiate>)
    ensures
        r == sized_initiate_of(cs, p@),
{
    // On a size-carrying initiate, bit 1 is the 's' flag, so the initiate/end
    // sub-command is bit 0 alone (0 = initiate).
    let cmd: u8 = p[0];
    if specifier_of(cmd) != cs || cmd % 2 != 0 {
        return Err(Error::UnexpectedCommand);
    }
    let size = if cmd / SIZE_INDICATED % 2 == 1 {
        Some(number_of(p))
    } else {
        None
    };
    Ok(BlockInitiate { address: address_of(p), size, crc_support: cmd / CRC_SUPPORTED % 2 == 1 })
}

fn encode_initiate_with_blksize(cs: u8, addr: Address, blksize: u8, crc: bool) -> (p: SdoPayload)
    requires
        cs <= CS_6,
    ensures
        p@ == negotiation(cs, (BlockNegotiation { address: addr, blksize, crc_support: crc })),
{
    let cmd: u8 = if crc {
        cs + CRC_SUPPORTED
    } else {
        cs
    };
    let b = [blksize];
    assert(b@ =~= seq![blksize]);
    addressed_frame(cmd, addr, &b)
}

fn decode_initiate_with_blksize(cs: u8, p: &SdoPayload) -> (r: Result<BlockNegotiation>)
    ensures
        r == negotiation_of(cs, p@),
{
    let cmd: u8 = p[0];
    if specifier_of(cmd) != cs || cmd % 4 != 0 {
        return Err(Error::UnexpectedCommand);
    }
    Ok(
        BlockNegotiation {
            address: address_of(p),
            blksize: p[4],
            crc_support: cmd / CRC_SUPPORTED % 2 == 1,
        },
    )
}

// --- Sub-block segments and acknowledgements (shared both directions) -------

/// The frame of a sub-block segment: the sequence number with the last flag in
/// bit 7, then the data.
pub open spec fn sub_segment_frame(seqno: u8, data: Seq<u8>, last: bool) -> Seq<u8> {
    padded(seq![(seqno + flag(last, LAST_SEGMENT)) as u8] + data)
}

/// Encode a **sub-block segment** carrying 1..=7 bytes with sequence number
/// `seqno` (`1..=127`); `last` marks the final segment of the transfer.
///
/// Returns [`Error::BadLength`] for any other sequence number or length.
pub fn encode_sub_segment(seqno: u8, data: &[u8], last: bool) -> (r: Result<SdoPayload>)
    ensures
        r is Ok <==> 1 <= seqno <= 127 && 1 <= data@.len() <= 7,
        r matches Ok(p) ==> p@ == sub_segment_frame(seqno, data@, last),
        r matches Err(e) ==> e == Error::BadLength,
{
    if seqno == 0 || seqno > MAX_BLKSIZE || data.len() == 0 || data.len() > SEGMENT_DATA_MAX {
        return Err(Error::BadLength);
    }
    let head: u8 = if last {
        seqno + LAST_SEGMENT
    } else {
        seqno
    };
    let mut p = pad8(&[head]);
    let mut i: usize = 0;
    while i < data.len()
        invariant
            i <= data@.len() <= 7,
            p@[0] == head,
            forall|j: int| 0 <= j < i ==> p@[1 + j] == data@[j],
            forall|j: int| 1 + i <= j < 8 ==> p@[j] == 0,
        decreases data@.len() - i,
    {
        p[1 + i] = data[i];
        i += 1;
    }
    assert(p@ =~= sub_segment_frame(seqno, data@, last));
    Ok(p)
}

/// Decode a sub-block segment frame.
pub fn decode_sub_segment(p: &SdoPayload) -> (s: SubSegment<'_>)
    ensures
        s.seqno == p@[0] % 0x80,
        s.last == (p@[0] >= 0x80),
        s.data@ == p@.subrange(1, 8),
{
    let s: &[u8] = p;
    SubSegment { seqno: p[0] % LAST_SEGMENT, last: p[0] >= LAST_SEGMENT, data: &s[1..8] }
}

/// Encode a **sub-block response**: `ackseq` is the highest sequence number
/// correctly received, `blksize` the size of the next sub-block. (Sent by the
/// download server or the upload client — identical bytes.)
pub fn encode_sub_response(ackseq: u8, blksize: u8) -> (p: SdoPayload)
    ensures
        p@ == padded(seq![0xA2u8, ackseq, blksize]),
{
    let b = [CS_5 + SUBCMD_RESPONSE, ackseq, blksize];
    assert(b@ =~= seq![0xA2u8, ackseq, blksize]);
    pad8(&b)
}

/// Decode a sub-block response into `(ackseq, blksize)`.
pub fn decode_sub_response(p: &SdoPayload) -> (r: Result<(u8, u8)>)
    ensures
        r is Ok <==> is_subcommand(p@, CS_5, SUBCMD_RESPONSE),
        r matches Ok((ackseq, blksize)) ==> ackseq == p@[1] && blksize == p@[2],
        r matches Err(e) ==> e == Error::UnexpectedCommand,
{
    if specifier_of(p[0]) != CS_5 || p[0] % 4 != SUBCMD_RESPONSE {
        return Err(Error::UnexpectedCommand);
    }
    Ok((p[1], p[2]))
}

/// The end frame: the unused bytes of the last segment (modulo eight) in bits
/// 4..2, then the CRC.
pub open spec fn end_frame_of(unused: u8, crc: u16) -> Seq<u8> {
    padded(seq![(CS_6 + unused % 8 * 4 + SUBCMD_END) as u8] + le_bytes(crc as nat, 2))
}

/// The CRC in bytes 1..3 of an end frame.
pub open spec fn crc_in(f: Seq<u8>) -> u16 {
    le_value(f.subrange(1, 3)) as u16
}

/// Encode the **end** frame. `unused` is how many of the last segment's seven
/// bytes carried no data; `crc` is the CRC over the whole transfer (`0` if
/// unused). (Sent by the download client or the upload server.)
pub fn encode_end(unused: u8, crc: u16) -> (p: SdoPayload)
    ensures
        p@ == end_frame_of(unused, crc),
{
    let c = u16_bytes(crc);
    proof {
        lemma_le_bytes_len(crc as nat, 2);
    }
    let b = [CS_6 + unused % 8 * 4 + SUBCMD_END, c[0], c[1]];
    assert(b@ =~= seq![(CS_6 + unused % 8 * 4 + SUBCMD_END) as u8] + le_bytes(crc as nat, 2));
    pad8(&b)
}

/// Decode an end frame into `(unused, crc)`.
pub fn decode_end(p: &SdoPayload) -> (r: Result<(u8, u16)>)
    ensures
        r is Ok <==> is_subcommand(p@, CS_6, SUBCMD_END),
        r matches Ok((unused, crc)) ==> unused == p@[0] / 4 % 8 && crc == crc_in(p@),
        r matches Err(e) ==> e == Error::UnexpectedCommand,
{
    if specifier_of(p[0]) != CS_6 || p[0] % 4 != SUBCMD_END {
        return Err(Error::UnexpectedCommand);
    }
    proof {
        lemma_byte_ranges();
    }
    let s: &[u8] = p;
    Ok((p[0] / 4 % 8, from_le(&s[1..3]) as u16))
}

/// Encode the **end response** confirming completion (download server or upload
/// client).
pub fn encode_end_response() -> (p: SdoPayload)
    ensures
        p@ == padded(seq![0xA1u8]),
{
    let b = [CS_5 + SUBCMD_END];
    assert(b@ =~= seq![0xA1u8]);
    pad8(&b)
}

/// Decode an end response.
pub fn decode_end_response(p: &SdoPayload) -> (r: Result<()>)
    ensures
        r is Ok <==> is_subcommand(p@, CS_5, SUBCMD_END),
        r matches Err(e) ==> e == Error::UnexpectedCommand,
{
    if specifier_of(p[0]) != CS_5 || p[0] % 4 != SUBCMD_END {
        return Err(Error::UnexpectedCommand);
    }
    Ok(())
}

/// The control frames of a block transfer are told apart by their decoders and
/// give back what they were encoded from.
pub proof fn law_control_frames_round_trip(ackseq: u8, blksize: u8, unused: u8, crc: u16)
    requires
        unused <= 7,
    ensures
        ({
            let start = padded(seq![0xA3u8]);
            let response = padded(seq![0xA2u8, ackseq, blksize]);
            let end = end_frame_of(unused, crc);
            let end_response = padded(seq![0xA1u8]);
            &&& is_subcommand(start, CS_5, SUBCMD_START)
            &&& is_subcommand(response, CS_5, SUBCMD_RESPONSE)
            &&& response[1] == ackseq && response[2] == blksize
            &&& is_subcommand(end, CS_6, SUBCMD_END)
            &&& end[0] / 4 % 8 == unused && crc_in(end) == crc
            &&& is_subcommand(end_response, CS_5, SUBCMD_END)
        }),
{
    lemma_byte_ranges();
    lemma_le_round_trip(crc as nat, 2);
    assert(end_frame_of(unused, crc).subrange(1, 3) =~= le_bytes(crc as nat, 2));
}

// --- Stateful helpers (happy path, both directions) ------------------------

/// Splits a byte buffer into sub-block segments — used by the download client
/// and the upload server.
///
/// Pull [`BlockWriter::next_segment`] until it yields `None`; if
/// [`BlockWriter::is_done`] then send the [`BlockWriter::end_frame`], otherwise
/// transmit the sub-block, await the acknowledgement, call
/// [`BlockWriter::start_sub_block`] with the next blksize, and repeat.
#[derive(Debug)]
pub struct BlockWriter<'a> {
    data: &'a [u8],
    pos: usize,
    seqno: u8,
    blksize: u8,
}

/// How many bytes of the last segment of `n` bytes carry no data.
pub open spec fn unused_bytes(n: nat) -> int {
    if n == 0 {
        7
    } else {
        6 - (n - 1) % 7
    }
}

/// The sub-block segment of `data` that starts at `pos`.
pub open spec fn sub_segment_at(data: Seq<u8>, pos: int, seqno: u8) -> Seq<u8> {
    let n = segment_len(data.len() - pos);
    sub_segment_frame(seqno, data.subrange(pos, pos + n), data.len() - pos <= 7)
}

impl<'a> BlockWriter<'a> {
    /// The bytes being split.
    pub closed spec fn data(self) -> Seq<u8> {
        self.data@
    }

    /// How many bytes have been emitted.
    pub closed spec fn pos(self) -> int {
        self.pos as int
    }

    /// The sequence number of the next segment.
    pub closed spec fn seqno(self) -> u8 {
        self.seqno
    }

    /// How many segments the current sub-block may hold.
    pub closed spec fn blksize(self) -> u8 {
        self.blksize
    }

    /// No more bytes have been emitted than there are, nor more segments than a
    /// sub-block can number.
    pub open spec fn wf(self) -> bool {
        &&& 0 <= self.pos() <= self.data().len()
        &&& 1 <= self.seqno() <= 128
    }

    /// Whether a segment is due: bytes are left, and the sub-block is not full.
    pub open spec fn due(self) -> bool {
        self.pos() < self.data().len() && self.seqno() <= self.blksize()
    }

    /// Start splitting `data` using the negotiated first `blksize`.
    pub fn new(data: &'a [u8], blksize: u8) -> (w: Self)
        ensures
            w.wf(),
            w.data() == data@,
            w.pos() == 0,
            w.seqno() == 1,
            w.blksize() == blksize,
    {
        Self { data, pos: 0, seqno: 1, blksize }
    }

    /// Whether every byte has been emitted (then send [`Self::end_frame`]).
    pub fn is_done(&self) -> (b: bool)
        ensures
            b == (self.pos() >= self.data().len()),
    {
        self.pos >= self.data.len()
    }

    /// The next segment of the current sub-block, or `None` when the sub-block
    /// is full or the data is exhausted (disambiguate with [`Self::is_done`]).
    ///
    /// A sub-block has at most 127 segments: one that was begun with a larger
    /// blksize must not be asked for a further one.
    pub fn next_segment(&mut self) -> (r: Option<SdoPayload>)
        requires
            old(self).wf(),
            old(self).due() ==> old(self).seqno() <= 127,
        ensures
            final(self).wf(),
            final(self).data() == old(self).data(),
            final(self).blksize() == old(self).blksize(),
            r is Some <==> old(self).due(),
            r is None ==> *final(self) == *old(self),
            r matches Some(p) ==> {
                &&& p@ == sub_segment_at(old(self).data(), old(self).pos(), old(self).seqno())
                &&& final(self).pos() == old(self).pos() + segment_len(
                    old(self).data().len() - old(self).pos(),
                )
                &&& final(self).seqno() == old(self).seqno() + 1
            },
    {
        if self.is_done() || self.seqno > self.blksize {
            return None;
        }
        let remaining: usize = self.data.len() - self.pos;
        let last = remaining <= SEGMENT_DATA_MAX;
        let take: usize = if last {
            remaining
        } else {
            SEGMENT_DATA_MAX
        };
        match encode_sub_segment(self.seqno, &self.data[self.pos..self.pos + take], last) {
            Ok(segment) => {
                self.pos = self.pos + take;
                self.seqno = self.seqno + 1;
                Some(segment)
            },
            Err(_) => None,
        }
    }

    /// Begin the next sub-block after an acknowledgement, using `blksize`.
    pub fn start_sub_block(&mut self, blksize: u8)
        requires
            old(self).wf(),
        ensures
            final(self).wf(),
            final(self).data() == old(self).data(),
            final(self).pos() == old(self).pos(),
            final(self).seqno() == 1,
            final(self).blksize() == blksize,
    {
        self.seqno = 1;
        self.blksize = blksize;
    }

    /// The end frame: the CRC over all data (when `crc_support`) and the count
    /// of unused bytes in the last segment.
    pub fn end_frame(&self, crc_support: bool) -> (p: SdoPayload)
        ensures
            p@ == end_frame_of(
                unused_bytes(self.data().len()) as u8,
                if crc_support {
                    crc_of(self.data())
                } else {
                    0
                },
            ),
    {
        let unused: u8 = if self.data.len() == 0 {
            7
        } else {
            6 - ((self.data.len() - 1) % SEGMENT_DATA_MAX) as u8
        };
        let crc: u16 = if crc_support {
            crc16(self.data)
        } else {
            0
        };
        encode_end(unused, crc)
    }
}

/// The state of a block reception.
pub struct Reception {
    /// The bytes received so far, the unused tail of the last segment included.
    pub data: Seq<u8>,
    /// Whether the last segment has been received.
    pub done: bool,
}

impl Reception {
    /// Nothing received yet.
    pub open spec fn start() -> Reception {
        Reception { data: Seq::empty(), done: false }
    }

    /// The reception after a segment, with room for `capacity` bytes, or why
    /// the segment is refused.
    pub open spec fn push(self, last: bool, data: Seq<u8>, capacity: nat) -> Result<Reception> {
        if self.done {
            Err(Error::UnexpectedCommand)
        } else if self.data.len() + data.len() > capacity {
            Err(Error::Overflow)
        } else {
            Ok(Reception { data: self.data + data, done: last })
        }
    }

    /// The data without the `unused` tail, or why it is refused.
    pub open spec fn finished(self, unused: u8, crc: u16, verify_crc: bool) -> Result<Seq<u8>> {
        let kept = self.data.take(self.data.len() - unused);
        if unused > self.data.len() {
            Err(Error::BadLength)
        } else if verify_crc && crc_of(kept) != crc {
            Err(Error::CrcMismatch)
        } else {
            Ok(kept)
        }
    }
}

/// Reassembles sub-block segments into a bounded buffer of capacity `N` — used
/// by the download server and the upload client.
#[derive(Debug)]
pub struct BlockReceiver<const N: usize> {
    buf: Vec<u8>,
    done: bool,
}

impl<const N: usize> View for BlockReceiver<N> {
    type V = Reception;

    closed spec fn view(&self) -> Reception {
        Reception { data: self.buf@, done: self.done }
    }
}

impl<const N: usize> Default for BlockReceiver<N> {
    fn default() -> (r: Self)
        ensures
            r@ == Reception::start(),
            r.wf(),
    {
        Self::new()
    }
}

impl<const N: usize> BlockReceiver<N> {
    /// The capacity is not exceeded.
    pub open spec fn wf(self) -> bool {
        self@.data.len() <= N
    }

    /// A new, empty receiver.
    pub fn new() -> (r: Self)
        ensures
            r@ == Reception::start(),
            r.wf(),
    {
        let r = Self { buf: Vec::new(), done: false };
        assert(r@.data =~= Seq::empty());
        r
    }

    /// Whether the last segment has been received (then call [`Self::finish`]).
    pub fn is_done(&self) -> (b: bool)
        ensures
            b == self@.done,
    {
        self.done
    }

    /// Append a decoded sub-block segment's seven bytes.
    ///
    /// Returns [`Error::Overflow`] beyond capacity `N`, or
    /// [`Error::UnexpectedCommand`] if the transfer is already complete.
    pub fn push(&mut self, segment: &SubSegment) -> (r: Result<()>)
        requires
            old(self).wf(),
        ensures
            final(self).wf(),
            match old(self)@.push(segment.last, segment.data@, N as nat) {
                Ok(after) => r is Ok && final(self)@ == after,
                Err(e) => r == Err::<(), Error>(e) && final(self)@ == old(self)@,
            },
    {
        if self.done {
            return Err(Error::UnexpectedCommand);
        }
        if segment.data.len() > N - self.buf.len() {
            return Err(Error::Overflow);
        }
        self.buf.extend_from_slice(segment.data);
        if segment.last {
            self.done = true;
        }
        assert(self@.data =~= old(self)@.data + segment.data@);
        Ok(())
    }

    /// Finalise: trim the `unused` tail bytes of the last segment and, when
    /// `verify_crc`, check the transfer CRC. Returns the reassembled data.
    ///
    /// Returns [`Error::BadLength`] if `unused` exceeds the buffer, or
    /// [`Error::CrcMismatch`] on a CRC failure.
    pub fn finish(&mut self, unused: u8, crc: u16, verify_crc: bool) -> (r: Result<&[u8]>)
        requires
            old(self).wf(),
        ensures
            final(self).wf(),
            final(self)@.done == old(self)@.done,
            final(self)@.data == if unused > old(self)@.data.len() {
                old(self)@.data
            } else {
                old(self)@.data.take(old(self)@.data.len() - unused)
            },
            match old(self)@.finished(unused, crc, verify_crc) {
                Ok(data) => r matches Ok(d) && d@ == data,
                Err(e) => r matches Err(e2) && e2 == e,
            },
    {
        let unused: usize = unused as usize;
        if unused > self.buf.len() {
            return Err(Error::BadLength);
        }
        let kept: usize = self.buf.len() - unused;
        self.buf.truncate(kept);
        if verify_crc && crc16(self.buf.as_slice()) != crc {
            return Err(Error::CrcMismatch);
        }
        Ok(self.buf.as_slice())
    }
}

/// What a receiver of capacity `capacity` holds when it has received the
/// segments of `data` from `pos` on, the next of them number `seqno` of sub-block
/// `block`. Sub-block `k` holds `sizes(k)` segments.
pub open spec fn received(
    r: Reception,
    data: Seq<u8>,
    pos: int,
    seqno: u8,
    block: int,
    sizes: spec_fn(int) -> u8,
    capacity: nat,
) -> Result<Reception>
    decreases data.len() - pos,
{
    if pos >= data.len() {
        Ok(r)
    } else {
        let f = sub_segment_at(data, pos, seqno);
        let full = seqno >= sizes(block);
        match r.push(f[0] >= 0x80, f.subrange(1, 8), capacity) {
            Ok(next) => received(
                next,
                data,
                pos + segment_len(data.len() - pos),
                if full {
                    1
                } else {
                    (seqno + 1) as u8
                },
                if full {
                    block + 1
                } else {
                    block
                },
                sizes,
                capacity,
            ),
            Err(e) => Err(e),
        }
    }
}

/// A block transfer delivers its data: whatever block size is negotiated for
/// each sub-block, the receiver of all segments is done, and finishing with what
/// the end frame carries — the unused bytes and the CRC — accepts and gives the
/// data back. The receiver needs room for whole segments; an empty transfer has
/// no segment at all.
pub proof fn law_block_transfer_round_trip(
    data: Seq<u8>,
    sizes: spec_fn(int) -> u8,
    capacity: nat,
)
    requires
        data.len() >= 1,
        data.len() + unused_bytes(data.len()) <= capacity,
        forall|k: int| 1 <= #[trigger] sizes(k) <= 127,
    ensures
        received(Reception::start(), data, 0, 1, 0, sizes, capacity) matches Ok(r) && r.done
            && r.finished(unused_bytes(data.len()) as u8, crc_of(data), true) == Ok::<
            Seq<u8>,
            Error,
        >(data),
{
    assert(data.subrange(0, 0) =~= Seq::empty());
    assert(1 <= sizes(0));
    lemma_received(Reception::start(), data, 0, 1, 0, sizes, capacity);
    if let Ok(r) = received(Reception::start(), data, 0, 1, 0, sizes, capacity) {
        assert(r.data.take(data.len() as int) =~= data);
    }
}

proof fn lemma_received(
    r: Reception,
    data: Seq<u8>,
    pos: int,
    seqno: u8,
    block: int,
    sizes: spec_fn(int) -> u8,
    capacity: nat,
)
    requires
        0 <= pos < data.len(),
        pos % 7 == 0,
        data.len() + unused_bytes(data.len()) <= capacity,
        r.data == data.subrange(0, pos),
        !r.done,
        forall|k: int| 1 <= #[trigger] sizes(k) <= 127,
        1 <= seqno <= sizes(block),
    ensures
        received(r, data, pos, seqno, block, sizes, capacity) matches Ok(end) && end.done
            && end.data.len() == data.len() + unused_bytes(data.len()) && end.data.take(
            data.len() as int,
        ) == data,
    decreases data.len() - pos,
{
    let n = segment_len(data.len() - pos);
    let part = data.subrange(pos, pos + n);
    let f = sub_segment_at(data, pos, seqno);
    let seven = f.subrange(1, 8);
    assert(seven.take(n) =~= part);
    let next = Reception { data: r.data + seven, done: data.len() - pos <= 7 };
    let full = seqno >= sizes(block);
    let seqno2 = if full {
        1u8
    } else {
        (seqno + 1) as u8
    };
    let block2 = if full {
        block + 1
    } else {
        block
    };
    assert(1 <= sizes(block2));
    assert(f[0] >= 0x80 <==> data.len() - pos <= 7);
    if pos + n < data.len() {
        assert(seven =~= part);
        assert(next.data =~= data.subrange(0, pos + n));
        lemma_received(next, data, pos + n, seqno2, block2, sizes, capacity);
    } else {
        assert(next.data.take(data.len() as int) =~= data);
        assert(received(next, data, pos + n, seqno2, block2, sizes, capacity) == Ok::<
            Reception,
            Error,
        >(next));
    }
}

} // verus!
