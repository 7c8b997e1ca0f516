//! Layer Setting Services (LSS, CiA 305) — configure a node's node-id and bit
//! timing over the bus.
//!
//! A node that ships without a preset node-id comes up *unconfigured* and
//! answers only LSS. An LSS master switches it into the *configuration* state —
//! globally, or selectively by matching its 128-bit [`LssAddress`] (the object
//! `0x1018` identity) — then assigns a node-id and asks it to store the setting.
//! When the master does not know the address, [`FastscanMaster`] discovers it
//! by bisecting the identity bit by bit (CiA 305 §3.7).
//!
//! LSS uses two fixed COB-IDs: master→slave on [`LSS_MASTER_COB_ID`] (`0x7E5`)
//! and slave→master on [`LSS_SLAVE_COB_ID`] (`0x7E4`). Every frame is eight
//! bytes: a command specifier in byte 0, then service data.
//!
//! [`LssSlave`] is the node-side state machine, without I/O like the rest of the
//! stack; the `encode_*` / `decode_*` functions build and read the master's
//! frames.
use vstd::arithmetic::power2::{lemma2_to64, lemma_pow2_pos, lemma_pow2_unfold, pow2};
use vstd::prelude::*;

use crate::frame::{pad8, padded};
use crate::little_endian::{
    from_le, le_bytes, le_value, lemma_byte_ranges, lemma_le_bytes_len, lemma_le_round_trip,
    u32_bytes,
};

pub mod laws;

verus! {

/// The LSS master→slave request channel (`0x7E5`).
pub const LSS_MASTER_COB_ID: u16 = 0x7E5;

/// The LSS slave→master response channel (`0x7E4`).
pub const LSS_SLAVE_COB_ID: u16 = 0x7E4;

/// The eight-byte LSS message data field.
pub type LssFrame = [u8; 8];

/// The node-id value denoting an unconfigured node.
pub const UNCONFIGURED_NODE_ID: u8 = 0xFF;

/// Command specifier (byte 0): switch state global.
pub const CS_SWITCH_GLOBAL: u8 = 0x04;

/// Command specifier: configure node-id.
pub const CS_CONFIGURE_NODE_ID: u8 = 0x11;

/// Command specifier: store configuration.
pub const CS_STORE_CONFIGURATION: u8 = 0x17;

/// Command specifier: switch state selective, vendor id.
pub const CS_SWITCH_SELECTIVE_VENDOR: u8 = 0x40;

/// Command specifier: switch state selective, product code.
pub const CS_SWITCH_SELECTIVE_PRODUCT: u8 = 0x41;

/// Command specifier: switch state selective, revision number.
pub const CS_SWITCH_SELECTIVE_REVISION: u8 = 0x42;

/// Command specifier: switch state selective, serial number.
pub const CS_SWITCH_SELECTIVE_SERIAL: u8 = 0x43;

/// Command specifier: confirmation of a selective switch.
pub const CS_SWITCH_SELECTIVE_RESPONSE: u8 = 0x44;

/// Command specifier: inquire vendor id.
pub const CS_INQUIRE_VENDOR: u8 = 0x5A;

/// Command specifier: inquire product code.
pub const CS_INQUIRE_PRODUCT: u8 = 0x5B;

/// Command specifier: inquire revision number.
pub const CS_INQUIRE_REVISION: u8 = 0x5C;

/// Command specifier: inquire serial number.
pub const CS_INQUIRE_SERIAL: u8 = 0x5D;

/// Command specifier: inquire node-id.
pub const CS_INQUIRE_NODE_ID: u8 = 0x5E;

/// Command specifier: identify slave.
pub const CS_IDENTIFY_SLAVE: u8 = 0x4F;

/// Command specifier: Fastscan.
pub const CS_FASTSCAN: u8 = 0x51;

/// Switch-state-global mode (byte 1): waiting.
pub const MODE_WAITING: u8 = 0;

/// Switch-state-global mode (byte 1): configuration.
pub const MODE_CONFIGURATION: u8 = 1;

/// The `BitCheck` value (byte 5) that resets/starts a Fastscan cycle: no bits
/// are checked, so every unconfigured node answers. Bit checks otherwise run
/// `31..=0`.
pub const FASTSCAN_INIT: u8 = 32;

/// A node's 128-bit LSS address — the identity object (`0x1018`) that
/// uniquely selects it on the bus.
#[derive(Debug, Clone, Copy, PartialEq, Eq, Structural)]
pub struct LssAddress {
    /// Vendor id (`0x1018` sub 1).
    pub vendor_id: u32,
    /// Product code (`0x1018` sub 2).
    pub product_code: u32,
    /// Revision number (`0x1018` sub 3).
    pub revision_number: u32,
    /// Serial number (`0x1018` sub 4).
    pub serial_number: u32,
}

impl LssAddress {
    /// The identity value for a Fastscan sub (0 = vendor .. 3 = serial).
    pub open spec fn part(self, sub: int) -> u32 {
        if sub == 0 {
            self.vendor_id
        } else if sub == 1 {
            self.product_code
        } else if sub == 2 {
            self.revision_number
        } else {
            self.serial_number
        }
    }
}

/// The LSS state of a node.
#[derive(Debug, Clone, Copy, PartialEq, Eq, Structural)]
pub enum LssState {
    /// Waiting — ignores configuration services until switched.
    Waiting,
    /// Configuration — accepts node-id/bit-timing/store services.
    Configuration,
}

/// A frame that carries a command specifier alone.
pub open spec fn command(cs: u8) -> Seq<u8> {
    padded(seq![cs])
}

/// A frame that carries a command specifier and one byte.
pub open spec fn command_u8(cs: u8, value: u8) -> Seq<u8> {
    padded(seq![cs, value])
}

/// A frame that carries a command specifier and a 32-bit number.
pub open spec fn command_u32(cs: u8, value: u32) -> Seq<u8> {
    padded(seq![cs] + le_bytes(value as nat, 4))
}

/// The 32-bit number in bytes 1..5 of a frame.
pub open spec fn number_in(f: Seq<u8>) -> u32 {
    le_value(f.subrange(1, 5)) as u32
}

/// What a frame that carries a number holds.
pub proof fn lemma_command_u32(cs: u8, value: u32)
    ensures
        command_u32(cs, value).len() == 8,
        command_u32(cs, value)[0] == cs,
        number_in(command_u32(cs, value)) == value,
{
    lemma_byte_ranges();
    lemma_le_round_trip(value as nat, 4);
    assert(command_u32(cs, value).subrange(1, 5) =~= le_bytes(value as nat, 4));
}

fn frame(cs: u8) -> (f: LssFrame)
    ensures
        f@ == command(cs),
{
    let b = [cs];
    assert(b@ =~= seq![cs]);
    pad8(&b)
}

fn frame_u8(cs: u8, value: u8) -> (f: LssFrame)
    ensures
        f@ == command_u8(cs, value),
{
    let b = [cs, value];
    assert(b@ =~= seq![cs, value]);
    pad8(&b)
}

fn frame_u32(cs: u8, value: u32) -> (f: LssFrame)
    ensures
        f@ == command_u32(cs, value),
{
    let v = u32_bytes(value);
    proof {
        lemma_le_bytes_len(value as nat, 4);
    }
    let b = [cs, v[0], v[1], v[2], v[3]];
    assert(b@ =~= seq![cs] + le_bytes(value as nat, 4));
    pad8(&b)
}

fn u32_at(f: &LssFrame) -> (x: u32)
    ensures
        x == number_in(f@),
{
    proof {
        lemma_byte_ranges();
    }
    let s: &[u8] = f;
    from_le(&s[1..5]) as u32
}

// --- Master-side encoders --------------------------------------------------

/// Switch every node globally to the configuration (`true`) or waiting
/// (`false`) state.
pub fn encode_switch_global(configuration: bool) -> (f: LssFrame)
    ensures
        f@ == command_u8(
            CS_SWITCH_GLOBAL,
            if configuration {
                MODE_CONFIGURATION
            } else {
                MODE_WAITING
            },
        ),
{
    frame_u8(
        CS_SWITCH_GLOBAL,
        if configuration {
            MODE_CONFIGURATION
        } else {
            MODE_WAITING
        },
    )
}

/// The `i`-th message of the sequence that selects the node with `address`.
pub open spec fn selective_frame(address: LssAddress, i: int) -> Seq<u8> {
    command_u32((CS_SWITCH_SELECTIVE_VENDOR + i) as u8, address.part(i))
}

/// The four-message sequence that selectively switches the node matching
/// `address` into the configuration state.
pub fn encode_switch_selective(address: &LssAddress) -> (frames: [LssFrame; 4])
    ensures
        forall|i: int| 0 <= i < 4 ==> (#[trigger] frames@[i])@ == selective_frame(*address, i),
{
    [
        frame_u32(CS_SWITCH_SELECTIVE_VENDOR, address.vendor_id),
        frame_u32(CS_SWITCH_SELECTIVE_PRODUCT, address.product_code),
        frame_u32(CS_SWITCH_SELECTIVE_REVISION, address.revision_number),
        frame_u32(CS_SWITCH_SELECTIVE_SERIAL, address.serial_number),
    ]
}

/// Assign `node_id` to the node currently in the configuration state.
pub fn encode_configure_node_id(node_id: u8) -> (f: LssFrame)
    ensures
        f@ == command_u8(CS_CONFIGURE_NODE_ID, node_id),
{
    frame_u8(CS_CONFIGURE_NODE_ID, node_id)
}

/// Ask the configured node to store its configuration to non-volatile memory.
pub fn encode_store() -> (f: LssFrame)
    ensures
        f@ == command(CS_STORE_CONFIGURATION),
{
    frame(CS_STORE_CONFIGURATION)
}

/// Inquire the configured node's active node-id.
pub fn encode_inquire_node_id() -> (f: LssFrame)
    ensures
        f@ == command(CS_INQUIRE_NODE_ID),
{
    frame(CS_INQUIRE_NODE_ID)
}

// --- Master-side response decoders -----------------------------------------

/// Whether `response` is a selective-switch confirmation (the node entered the
/// configuration state).
pub fn is_switch_selective_response(response: &LssFrame) -> (b: bool)
    ensures
        b == (response@[0] == CS_SWITCH_SELECTIVE_RESPONSE),
{
    response[0] == CS_SWITCH_SELECTIVE_RESPONSE
}

/// Decode a configure-node-id response: `Ok(())` on success, `Err(error_code)`
/// otherwise (`1` = node-id out of range). `None` if not such a response.
pub fn decode_configure_node_id_response(response: &LssFrame) -> (r: Option<Result<(), u8>>)
    ensures
        r is Some <==> response@[0] == CS_CONFIGURE_NODE_ID,
        r matches Some(Ok(_)) ==> response@[1] == 0,
        r matches Some(Err(e)) ==> e == response@[1] && e != 0,
{
    if response[0] != CS_CONFIGURE_NODE_ID {
        return None;
    }
    Some(
        if response[1] == 0 {
            Ok(())
        } else {
            Err(response[1])
        },
    )
}

/// Decode an inquire-node-id response into the reported node-id.
pub fn decode_inquire_node_id_response(response: &LssFrame) -> (r: Option<u8>)
    ensures
        r == if response@[0] == CS_INQUIRE_NODE_ID {
            Some(response@[1])
        } else {
            None
        },
{
    if response[0] == CS_INQUIRE_NODE_ID {
        Some(response[1])
    } else {
        None
    }
}

// --- Fastscan (identify an unknown node by bisecting its address) -----------

/// The eight bytes of a Fastscan request.
pub open spec fn fastscan_frame(id_number: u32, bit_check: u8, lss_sub: u8, lss_next: u8) -> Seq<u8> {
    seq![CS_FASTSCAN] + le_bytes(id_number as nat, 4) + seq![bit_check, lss_sub, lss_next]
}

/// What a Fastscan request carries.
pub proof fn lemma_fastscan_frame(id_number: u32, bit_check: u8, lss_sub: u8, lss_next: u8)
    ensures
        ({
            let f = fastscan_frame(id_number, bit_check, lss_sub, lss_next);
            &&& f.len() == 8
            &&& f[0] == CS_FASTSCAN
            &&& number_in(f) == id_number
            &&& f[5] == bit_check
            &&& f[6] == lss_sub
            &&& f[7] == lss_next
        }),
{
    lemma_byte_ranges();
    lemma_le_round_trip(id_number as nat, 4);
    let f = fastscan_frame(id_number, bit_check, lss_sub, lss_next);
    assert(f.subrange(1, 5) =~= le_bytes(id_number as nat, 4));
}

/// Encode an LSS Fastscan request (CiA 305 §3.7).
///
/// `id_number` is the candidate value being tested, `bit_check` the bit being
/// probed ([`FASTSCAN_INIT`] to start; then `31..=0`), `lss_sub` which of the
/// four identity values is under scan (`0` = vendor, `1` = product,
/// `2` = revision, `3` = serial), and `lss_next` the sub to move to once this
/// one is confirmed. Most callers drive this through [`FastscanMaster`].
pub fn encode_fastscan(id_number: u32, bit_check: u8, lss_sub: u8, lss_next: u8) -> (f: LssFrame)
    ensures
        f@ == fastscan_frame(id_number, bit_check, lss_sub, lss_next),
{
    let v = u32_bytes(id_number);
    proof {
        lemma_le_bytes_len(id_number as nat, 4);
    }
    let f = [CS_FASTSCAN, v[0], v[1], v[2], v[3], bit_check, lss_sub, lss_next];
    assert(f@ =~= fastscan_frame(id_number, bit_check, lss_sub, lss_next));
    f
}

/// Whether `response` is the "identify slave" answer a node sends during
/// Fastscan (and identify-remote-slave) — i.e. an unconfigured node is present
/// and matches the request so far.
pub fn is_identify_slave_response(response: &LssFrame) -> (b: bool)
    ensures
        b == (response@[0] == CS_IDENTIFY_SLAVE),
{
    response[0] == CS_IDENTIFY_SLAVE
}

/// The state of a Fastscan.
pub struct Scan {
    /// The identity values determined so far.
    pub id: Seq<u32>,
    /// The identity value under scan, above `3` once complete.
    pub sub: int,
    /// The bit under test, `-1` to confirm the value, `-2` for the initial
    /// probe.
    pub bit: int,
    /// Whether a node answered the initial probe.
    pub found: bool,
}

impl Scan {
    /// The state in which a scan starts.
    pub open spec fn start() -> Scan {
        Scan { id: seq![0u32, 0, 0, 0], sub: 0, bit: -2, found: false }
    }

    /// Whether the scan has run to completion.
    pub open spec fn complete(self) -> bool {
        self.sub > 3
    }

    /// The request to transmit next.
    pub open spec fn request(self) -> Seq<u8> {
        if self.bit == -2 {
            fastscan_frame(0, FASTSCAN_INIT, 0, 0)
        } else if self.bit == -1 {
            fastscan_frame(self.id[self.sub], 0, self.sub as u8, ((self.sub + 1) % 4) as u8)
        } else {
            fastscan_frame(self.id[self.sub], self.bit as u8, self.sub as u8, self.sub as u8)
        }
    }

    /// The scan after the last request was answered, or was not.
    ///
    /// An unanswered bit test means that this bit of the identity is a one.
    pub open spec fn after(self, responded: bool) -> Scan {
        if self.bit == -2 {
            if responded {
                Scan { found: true, bit: 31, ..self }
            } else {
                Scan { sub: 4, ..self }
            }
        } else if self.bit == -1 {
            Scan { sub: self.sub + 1, bit: 31, ..self }
        } else if responded {
            Scan { bit: self.bit - 1, ..self }
        } else {
            Scan {
                id: self.id.update(
                    self.sub,
                    (self.id[self.sub] + pow2(self.bit as nat)) as u32,
                ),
                bit: self.bit - 1,
                ..self
            }
        }
    }

    /// The discovered address.
    pub open spec fn address(self) -> LssAddress {
        LssAddress {
            vendor_id: self.id[0],
            product_code: self.id[1],
            revision_number: self.id[2],
            serial_number: self.id[3],
        }
    }

    /// The bits not yet tested of the value under scan are zero, and the
    /// values not yet scanned are zero.
    pub open spec fn wf(self) -> bool {
        &&& self.id.len() == 4
        &&& 0 <= self.sub <= 255
        &&& -2 <= self.bit <= 31
        &&& self.bit == -2 ==> self.sub == 0 || self.sub == 4
        &&& forall|j: int| self.sub < j < 4 ==> self.id[j] == 0
        &&& self.bit == -2 && self.sub < 4 ==> self.id[self.sub] == 0
        &&& self.bit >= -1 && self.sub < 4 ==> {
            &&& self.id[self.sub] as int % pow2((self.bit + 1) as nat) as int == 0
            &&& self.id[self.sub] + pow2((self.bit + 1) as nat) <= 0x1_0000_0000
        }
    }

    /// Whether an answer can be reported: always while the scan runs. Once it
    /// is complete there is no identity value left to determine a bit of.
    pub open spec fn accepts(self, responded: bool) -> bool {
        self.complete() && self.bit != -2 ==> if self.bit == -1 {
            self.sub < 255
        } else {
            responded
        }
    }

    /// How many requests are left.
    pub open spec fn remaining(self) -> nat {
        if self.complete() {
            0
        } else if self.bit == -2 {
            133
        } else {
            ((3 - self.sub) * 33 + self.bit + 2) as nat
        }
    }

    /// Every answer keeps the scan well formed and brings it one request
    /// nearer to its end, or ends it; a complete scan stays complete.
    pub proof fn lemma_after(self, responded: bool)
        requires
            self.wf(),
            self.accepts(responded),
        ensures
            self.after(responded).wf(),
            self.complete() ==> self.after(responded).complete(),
            !self.complete() ==> self.after(responded).remaining() < self.remaining(),
            !self.complete() && (self.bit != -2 || responded) ==> self.after(
                responded,
            ).remaining() == self.remaining() - 1,
            !self.complete() && self.bit >= 0 ==> self.id[self.sub] + pow2(self.bit as nat)
                < 0x1_0000_0000,
    {
        lemma2_to64();
        if !self.complete() && self.bit >= 0 {
            let b = self.bit as nat;
            lemma_pow2_unfold(b + 1);
            lemma_pow2_pos(b);
            let p = pow2(b) as int;
            let id = self.id[self.sub] as int;
            let q = id / (2 * p);
            assert(id == 2 * p * q) by {
                vstd::arithmetic::div_mod::lemma_fundamental_div_mod(id, 2 * p);
            }
            assert(id == p * (2 * q)) by (nonlinear_arith)
                requires
                    id == 2 * p * q,
            ;
            assert(id + p == p * (2 * q + 1)) by (nonlinear_arith)
                requires
                    id == 2 * p * q,
            ;
            vstd::arithmetic::div_mod::lemma_mod_multiples_basic(2 * q, p);
            vstd::arithmetic::div_mod::lemma_mod_multiples_basic(2 * q + 1, p);
            assert((2 * q) * p == p * (2 * q)) by (nonlinear_arith);
            assert((2 * q + 1) * p == p * (2 * q + 1)) by (nonlinear_arith);
        }
    }
}

/// An LSS master, without I/O, that discovers an unconfigured node's 128-bit
/// [`LssAddress`] by Fastscan, when the master does not know it up front.
///
/// It walks the four identity values, bisecting each from the most significant
/// bit: for every bit it emits a [`next_request`](FastscanMaster::next_request)
/// frame, the caller transmits it and reports — via
/// [`on_response`](FastscanMaster::on_response) — whether an
/// [`is_identify_slave_response`] arrived on [`LSS_SLAVE_COB_ID`] within the
/// LSS timeout. After [`is_complete`](FastscanMaster::is_complete), the matched
/// node is in the configuration state and its [`address`](FastscanMaster::address)
/// is known — ready for [`encode_configure_node_id`].
#[derive(Debug)]
pub struct FastscanMaster {
    id: [u32; 4],
    // 0..=3 while scanning; 4 once complete
    sub: u8,
    // -2 = initial probe, 31..=0 = bit under test, -1 = confirm
    bit: i8,
    found: bool,
}

impl View for FastscanMaster {
    type V = Scan;

    closed spec fn view(&self) -> Scan {
        Scan { id: self.id@, sub: self.sub as int, bit: self.bit as int, found: self.found }
    }
}

impl Default for FastscanMaster {
    fn default() -> (m: Self)
        ensures
            m@ == Scan::start(),
            m@.wf(),
    {
        Self::new()
    }
}

impl FastscanMaster {
    /// Start a fresh Fastscan.
    pub fn new() -> (m: Self)
        ensures
            m@ == Scan::start(),
            m@.wf(),
    {
        let id = [0u32; 4];
        assert(id@ =~= seq![0u32, 0, 0, 0]);
        Self { id, sub: 0, bit: -2, found: false }
    }

    /// The next Fastscan frame to transmit on [`LSS_MASTER_COB_ID`], or `None`
    /// once discovery has finished.
    pub fn next_request(&self) -> (r: Option<LssFrame>)
        requires
            self@.wf(),
        ensures
            r is None <==> self@.complete(),
            r matches Some(f) ==> f@ == self@.request(),
    {
        if self.sub > 3 {
            return None;
        }
        let sub: u8 = self.sub;
        let idx: usize = sub as usize;
        Some(
            match self.bit {
                -2 => encode_fastscan(0, FASTSCAN_INIT, 0, 0),
                -1 => encode_fastscan(self.id[idx], 0, sub, (sub + 1) % 4),
                b => encode_fastscan(self.id[idx], b as u8, sub, sub),
            },
        )
    }

    /// Report whether the last [`next_request`](FastscanMaster::next_request)
    /// drew an identify-slave response, advancing the scan.
    pub fn on_response(&mut self, responded: bool)
        requires
            old(self)@.wf(),
            old(self)@.accepts(responded),
        ensures
            final(self)@ == old(self)@.after(responded),
            final(self)@.wf(),
    {
        proof {
            self@.lemma_after(responded);
        }
        match self.bit {
            -2 => {
                if responded {
                    self.found = true;
                    self.bit = 31;
                } else {
                    self.sub = 4;  // no unconfigured node answered
                }
            },
            -1 => {
                // Sub confirmed; move on to the next identity value.
                self.sub += 1;
                self.bit = 31;
            },
            b => {
                // No response means this bit of the identity is a 1.
                if !responded {
                    let shift: u32 = b as u32;
                    let i: usize = self.sub as usize;
                    proof {
                        vstd::bits::lemma_u32_pow2_no_overflow(b as nat);
                        vstd::bits::lemma_u32_shl_is_mul(1, shift);
                    }
                    self.id[i] = self.id[i] + (1u32 << shift);
                }
                self.bit -= 1;  // 31..=0, then -1 to confirm the sub
            },
        }
        assert(self@.id =~= old(self)@.after(responded).id);
    }

    /// Whether an unconfigured node answered the initial probe.
    pub fn found(&self) -> (b: bool)
        ensures
            b == self@.found,
    {
        self.found
    }

    /// Whether the scan has run to completion.
    pub fn is_complete(&self) -> (b: bool)
        ensures
            b == self@.complete(),
    {
        self.sub > 3
    }

    /// The discovered address — meaningful once [`is_complete`](FastscanMaster::is_complete)
    /// and [`found`](FastscanMaster::found) are both true.
    pub fn address(&self) -> (a: LssAddress)
        ensures
            a == self@.address(),
    {
        LssAddress {
            vendor_id: self.id[0],
            product_code: self.id[1],
            revision_number: self.id[2],
            serial_number: self.id[3],
        }
    }
}

/// The state of a node's LSS.
pub struct Slave {
    /// The node's LSS address.
    pub address: LssAddress,
    /// The active node-id.
    pub node_id: u8,
    /// The node-id that the next reset makes active.
    pub pending_node_id: u8,
    /// The LSS state.
    pub state: LssState,
    /// How many values of a selective switch have matched.
    pub selective: u8,
    /// The identity value under Fastscan.
    pub fs_sub: u8,
}

/// Whether two identity values agree in bits `bit..=31`.
pub open spec fn agree_from(a: u32, b: u32, bit: nat) -> bool {
    a as nat / pow2(bit) == b as nat / pow2(bit)
}

impl Slave {
    /// A node with the given identity and node-id, before any request.
    pub open spec fn fresh(address: LssAddress, node_id: u8) -> Slave {
        Slave {
            address,
            node_id,
            pending_node_id: node_id,
            state: LssState::Waiting,
            selective: 0,
            fs_sub: 0,
        }
    }

    /// Whether the node takes part in Fastscan.
    pub open spec fn scannable(self) -> bool {
        self.node_id == UNCONFIGURED_NODE_ID && self.state == LssState::Waiting
    }

    /// The node after a Fastscan request, and its answer.
    ///
    /// The initial probe restarts the scan. A bit check is answered when it is
    /// for the identity value under scan and that value agrees with the
    /// candidate in the bits checked so far. An answered check of all bits that
    /// names another value next moves the scan on to it, and after the last
    /// value into the configuration state.
    pub open spec fn fastscan(self, req: Seq<u8>) -> (Slave, Option<Seq<u8>>) {
        let bit_check = req[5];
        let lss_sub = req[6];
        let lss_next = req[7];
        if !self.scannable() {
            (self, None)
        } else if bit_check >= FASTSCAN_INIT {
            (Slave { fs_sub: 0, ..self }, Some(command(CS_IDENTIFY_SLAVE)))
        } else if lss_sub != self.fs_sub || !agree_from(
            number_in(req),
            self.address.part(lss_sub as int),
            bit_check as nat,
        ) {
            (self, None)
        } else if bit_check != 0 || lss_next == lss_sub {
            (self, Some(command(CS_IDENTIFY_SLAVE)))
        } else if lss_sub >= 3 {
            (
                Slave { state: LssState::Configuration, ..self },
                Some(command(CS_IDENTIFY_SLAVE)),
            )
        } else {
            (Slave { fs_sub: lss_next, ..self }, Some(command(CS_IDENTIFY_SLAVE)))
        }
    }

    /// The node after one of the four messages of a selective switch, and its
    /// answer. The messages must come in order, each with the node's own value;
    /// the fourth then switches the node into the configuration state.
    pub open spec fn select(self, req: Seq<u8>) -> (Slave, Option<Seq<u8>>) {
        let i = req[0] - CS_SWITCH_SELECTIVE_VENDOR;
        let matched = (i == 0 || self.selective == i) && number_in(req) == self.address.part(i);
        if matched && i == 3 {
            (
                Slave { selective: 0, state: LssState::Configuration, ..self },
                Some(command(CS_SWITCH_SELECTIVE_RESPONSE)),
            )
        } else {
            (Slave { selective: if matched { (i + 1) as u8 } else { 0 }, ..self }, None)
        }
    }

    /// The node after a service that only the configuration state accepts, and
    /// its answer.
    pub open spec fn configure(self, req: Seq<u8>) -> (Slave, Option<Seq<u8>>) {
        if req[0] == CS_CONFIGURE_NODE_ID {
            if 1 <= req[1] <= 127 || req[1] == UNCONFIGURED_NODE_ID {
                (
                    Slave { pending_node_id: req[1], ..self },
                    Some(command_u8(CS_CONFIGURE_NODE_ID, 0)),
                )
            } else {
                (self, Some(command_u8(CS_CONFIGURE_NODE_ID, 1)))
            }
        } else if req[0] == CS_STORE_CONFIGURATION {
            (self, Some(command(CS_STORE_CONFIGURATION)))
        } else if req[0] == CS_INQUIRE_NODE_ID {
            (self, Some(command_u8(CS_INQUIRE_NODE_ID, self.node_id)))
        } else if CS_INQUIRE_VENDOR <= req[0] <= CS_INQUIRE_SERIAL {
            (self, Some(command_u32(req[0], self.address.part(req[0] - CS_INQUIRE_VENDOR))))
        } else {
            (self, None)
        }
    }

    /// The node after a master's request, and its answer.
    pub open spec fn handle(self, req: Seq<u8>) -> (Slave, Option<Seq<u8>>) {
        if req[0] == CS_SWITCH_GLOBAL {
            (
                Slave {
                    selective: 0,
                    state: if req[1] == MODE_CONFIGURATION {
                        LssState::Configuration
                    } else {
                        LssState::Waiting
                    },
                    ..self
                },
                None,
            )
        } else if CS_SWITCH_SELECTIVE_VENDOR <= req[0] <= CS_SWITCH_SELECTIVE_SERIAL {
            self.select(req)
        } else if req[0] == CS_FASTSCAN {
            self.fastscan(req)
        } else if self.state == LssState::Configuration {
            self.configure(req)
        } else {
            (self, None)
        }
    }
}

/// The node-side LSS state machine (CiA 305).
///
/// Feed each frame received on [`LSS_MASTER_COB_ID`] to [`LssSlave::handle`] and
/// transmit any [`LssFrame`] it returns on [`LSS_SLAVE_COB_ID`]. A configured
/// node-id set here becomes active on the node's next reset — call
/// [`LssSlave::adopt_pending`] then.
#[derive(Debug)]
pub struct LssSlave {
    address: LssAddress,
    node_id: u8,
    pending_node_id: u8,
    state: LssState,
    selective: u8,
    fs_sub: u8,
}

impl View for LssSlave {
    type V = Slave;

    closed spec fn view(&self) -> Slave {
        Slave {
            address: self.address,
            node_id: self.node_id,
            pending_node_id: self.pending_node_id,
            state: self.state,
            selective: self.selective,
            fs_sub: self.fs_sub,
        }
    }
}

/// Whether an answer that is an array of bytes is the answer `expected`.
pub open spec fn answers(r: Option<LssFrame>, expected: Option<Seq<u8>>) -> bool {
    match r {
        Some(f) => expected == Some(f@),
        None => expected is None,
    }
}

impl LssSlave {
    /// Create a slave with the given identity and current node-id
    /// ([`UNCONFIGURED_NODE_ID`] if it has none yet).
    pub fn new(address: LssAddress, node_id: u8) -> (s: Self)
        ensures
            s@ == Slave::fresh(address, node_id),
    {
        Self {
            address,
            node_id,
            pending_node_id: node_id,
            state: LssState::Waiting,
            selective: 0,
            fs_sub: 0,
        }
    }

    /// The identity value for a Fastscan sub (0 = vendor .. 3 = serial).
    fn identity(&self, sub: u8) -> (x: u32)
        ensures
            x == self@.address.part(sub as int),
    {
        match sub {
            0 => self.address.vendor_id,
            1 => self.address.product_code,
            2 => self.address.revision_number,
            _ => self.address.serial_number,
        }
    }

    /// Handle an LSS Fastscan request, bisecting this node's identity so a
    /// master can discover its [`LssAddress`] without knowing it in advance.
    /// Only an unconfigured node still in the waiting state participates; a full
    /// match on the serial number (the last sub) switches it into the
    /// configuration state, exactly as a selective switch would.
    fn handle_fastscan(&mut self, req: &LssFrame) -> (r: Option<LssFrame>)
        ensures
            final(self)@ == old(self)@.fastscan(req@).0,
            answers(r, old(self)@.fastscan(req@).1),
    {
        if self.node_id != UNCONFIGURED_NODE_ID || self.state != LssState::Waiting {
            return None;
        }
        let id_number: u32 = u32_at(req);
        let bit_check: u8 = req[5];
        let lss_sub: u8 = req[6];
        let lss_next: u8 = req[7];

        if bit_check >= FASTSCAN_INIT {
            // Initial probe: restart the scan and announce our presence.
            self.fs_sub = 0;
            return Some(frame(CS_IDENTIFY_SLAVE));
        }
        if lss_sub != self.fs_sub {
            return None;
        }
        // Check only the bits the master has determined so far ([`bit_check`..=31]).

        let shift: u32 = bit_check as u32;
        let identity: u32 = self.identity(lss_sub);
        proof {
            vstd::bits::lemma_u32_shr_is_div(id_number, shift);
            vstd::bits::lemma_u32_shr_is_div(identity, shift);
        }
        if (id_number >> shift) != (identity >> shift) {
            return None;
        }
        // A full match with a changing `lss_next` confirms this sub is done.

        if bit_check == 0 && lss_next != lss_sub {
            if lss_sub >= 3 {
                self.state = LssState::Configuration;
            } else {
                self.fs_sub = lss_next;
            }
        }
        Some(frame(CS_IDENTIFY_SLAVE))
    }

    /// The active node-id (`0xFF` while unconfigured).
    pub fn node_id(&self) -> (id: u8)
        ensures
            id == self@.node_id,
    {
        self.node_id
    }

    /// The node-id set by the master but not yet active (applied on reset).
    pub fn pending_node_id(&self) -> (id: u8)
        ensures
            id == self@.pending_node_id,
    {
        self.pending_node_id
    }

    /// The current LSS state.
    pub fn state(&self) -> (s: LssState)
        ensures
            s == self@.state,
    {
        self.state
    }

    /// This node's LSS address.
    pub fn address(&self) -> (a: LssAddress)
        ensures
            a == self@.address,
    {
        self.address
    }

    /// Adopt the pending node-id as the active one — call on the reset that
    /// follows an LSS configuration.
    pub fn adopt_pending(&mut self)
        ensures
            final(self)@ == (Slave { node_id: old(self)@.pending_node_id, ..old(self)@ }),
    {
        self.node_id = self.pending_node_id;
    }

    /// Process an LSS master frame, returning the response to transmit, if any.
    pub fn handle(&mut self, req: &LssFrame) -> (r: Option<LssFrame>)
        ensures
            final(self)@ == old(self)@.handle(req@).0,
            answers(r, old(self)@.handle(req@).1),
    {
        let cs: u8 = req[0];
        if cs == CS_SWITCH_GLOBAL {
            self.selective = 0;
            self.state =
            if req[1] == MODE_CONFIGURATION {
                LssState::Configuration
            } else {
                LssState::Waiting
            };
            return None;
        }
        if cs == CS_SWITCH_SELECTIVE_VENDOR {
            self.selective =
            if u32_at(req) == self.address.vendor_id {
                1
            } else {
                0
            };
            return None;
        }
        if cs == CS_SWITCH_SELECTIVE_PRODUCT {
            self.selective =
            if self.selective == 1 && u32_at(req) == self.address.product_code {
                2
            } else {
                0
            };
            return None;
        }
        if cs == CS_SWITCH_SELECTIVE_REVISION {
            self.selective =
            if self.selective == 2 && u32_at(req) == self.address.revision_number {
                3
            } else {
                0
            };
            return None;
        }
        if cs == CS_SWITCH_SELECTIVE_SERIAL {
            let matched = self.selective == 3 && u32_at(req) == self.address.serial_number;
            self.selective = 0;
            if !matched {
                return None;
            }
            self.state = LssState::Configuration;
            return Some(frame(CS_SWITCH_SELECTIVE_RESPONSE));
        }
        if cs == CS_FASTSCAN {
            return self.handle_fastscan(req);
        }
        if self.state != LssState::Configuration {
            return None;
        }
        if cs == CS_CONFIGURE_NODE_ID {
            let id: u8 = req[1];
            let error: u8 = if (1 <= id && id <= 127) || id == UNCONFIGURED_NODE_ID {
                self.pending_node_id = id;
                0
            } else {
                1  // node-id out of range

            };
            Some(frame_u8(CS_CONFIGURE_NODE_ID, error))
        } else if cs == CS_STORE_CONFIGURATION {
            Some(frame(CS_STORE_CONFIGURATION))
        } else if cs == CS_INQUIRE_NODE_ID {
            Some(frame_u8(CS_INQUIRE_NODE_ID, self.node_id))
        } else if cs == CS_INQUIRE_VENDOR {
            Some(frame_u32(CS_INQUIRE_VENDOR, self.address.vendor_id))
        } else if cs == CS_INQUIRE_PRODUCT {
            Some(frame_u32(CS_INQUIRE_PRODUCT, self.address.product_code))
        } else if cs == CS_INQUIRE_REVISION {
            Some(frame_u32(CS_INQUIRE_REVISION, self.address.revision_number))
        } else if cs == CS_INQUIRE_SERIAL {
            Some(frame_u32(CS_INQUIRE_SERIAL, self.address.serial_number))
        } else {
            None
        }
    }
}

} // verus!
