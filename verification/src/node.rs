//! A CANopen device node — object dictionary + SDO server + NMT state in one
//! frame-driven type.
//!
//! [`Node`] bundles the pieces a device needs and, like the rest of the stack,
//! does no I/O: hand each incoming CAN frame to [`Node::on_frame`] and
//! transmit the [`TxFrame`] it returns (if any). It serves SDO requests against
//! its object dictionary, tracks NMT state from node-control commands, and
//! produces boot-up and heartbeat frames — the same logic on a host or an MCU.
use vstd::prelude::*;

use crate::buffer::{
    clear_codes, codes_in, codes_slice, frames_in, insert_code, new_codes, new_frames, new_rpdos,
    new_tpdos, pop_code, push_frame, push_rpdo, push_tpdo, rpdos_in, rpdos_slice, tpdos_in,
    tpdos_slice,
};
use crate::datatypes::Value;
use crate::emcy::{emcy_cob_id, error_code, EmergencyMessage, ErrorRegister, EMCY_COB_BASE};
use crate::frame::{clamped, pad8, padded, Frame, Payload};
use crate::lss::{
    LssAddress, LssSlave, Slave, LSS_MASTER_COB_ID, LSS_SLAVE_COB_ID, UNCONFIGURED_NODE_ID,
};
use crate::nmt::{
    booted, decode_command, encode_heartbeat, encode_node_guard, guard_byte, heartbeat_cob_id,
    next_state, NmtCommand, NmtState, NmtStateMachine, BOOTUP_FRAME, HEARTBEAT_COB_BASE,
    NMT_COMMAND_COB_ID,
};
use crate::object_dictionary::{read_of, set_of, Address, ObjectDictionary, Objects};
use crate::pdo::{
    pack, pack_of, pdo_can_id, pdo_is_valid, unpack, unpack_of, MappingEntry, PdoMapping,
    TransmissionType,
};
use crate::sdo::server::{SdoServer, ServerState};
use crate::sdo::{SDO_REQUEST_COB_BASE, SDO_RESPONSE_COB_BASE};
use crate::sync::{encode_counter, next_count, valid_overflow, SyncCounter, SYNC_COB_ID};
use crate::types::{Error, NodeId, Result};

pub mod laws;

verus! {

/// The maximum number of transmit (or receive) PDOs a [`Node`] holds — the four
/// of the predefined connection set.
pub const MAX_PDOS: usize = 4;

/// The maximum objects mapped into one PDO: a full eight-byte frame of
/// one-byte objects.
pub const MAX_PDO_MAPPING: usize = 8;

/// How many past emergencies a [`Node`] keeps in its pre-defined error field
/// (object `0x1003`), most-recent-first. Older entries are dropped once full.
pub const MAX_ERROR_HISTORY: usize = 8;

/// A frame to transmit: an 11-bit COB-ID and up to eight data bytes.
#[derive(Debug, Clone, Copy, PartialEq, Eq)]
pub struct TxFrame {
    /// The COB-ID to transmit on.
    pub cob_id: u16,
    payload: Payload,
}

impl View for TxFrame {
    type V = Frame;

    closed spec fn view(&self) -> Frame {
        Frame { cob_id: self.cob_id, data: self.payload@ }
    }
}

impl TxFrame {
    fn new(cob_id: u16, bytes: &[u8]) -> (f: Self)
        ensures
            f@.cob_id == cob_id,
            f@.data == clamped(bytes@),
    {
        Self { cob_id, payload: Payload::new(bytes) }
    }

    /// The frame's data bytes (its DLC-trimmed payload).
    pub fn data(&self) -> (d: &[u8])
        ensures
            d@ == self@.data,
            d@.len() <= 8,
    {
        self.payload.bytes()
    }
}

/// Whether a frame to transmit is the frame `expected`.
pub open spec fn transmits(r: Option<TxFrame>, expected: Option<Frame>) -> bool {
    match r {
        Some(f) => expected == Some(f@),
        None => expected is None,
    }
}

// --- The model -------------------------------------------------------------

/// A receive PDO: the COB-ID it listens on and the objects it maps.
pub struct Rpdo {
    pub cob_id: u16,
    pub entries: Seq<MappingEntry>,
}

/// A transmit PDO: its COB-ID, the objects it maps, and its trigger.
pub struct Tpdo {
    pub cob_id: u16,
    pub entries: Seq<MappingEntry>,
    pub transmission: TransmissionType,
}

/// A SYNC producer: the counter overflow, and the last count emitted.
pub struct SyncProducer {
    pub overflow: u8,
    pub count: u8,
}

/// The state of a node.
pub struct NodeState {
    pub node_id: u8,
    pub objects: Objects,
    pub sdo: ServerState,
    pub nmt: NmtState,
    pub rpdos: Seq<Rpdo>,
    pub tpdos: Seq<Tpdo>,
    pub lss: Option<Slave>,
    pub guard_toggle: bool,
    pub error_register: u8,
    pub error_history: Seq<u32>,
    pub sync_producer: Option<SyncProducer>,
}

/// The first receive PDO that listens on `cob_id`.
pub open spec fn rpdo_for(rpdos: Seq<Rpdo>, cob_id: u16) -> Option<Rpdo>
    decreases rpdos.len(),
{
    if rpdos.len() == 0 {
        None
    } else if rpdos[0].cob_id == cob_id {
        Some(rpdos[0])
    } else {
        rpdo_for(rpdos.drop_first(), cob_id)
    }
}

/// The frame of a transmit PDO; none if it maps nothing or cannot be packed.
pub open spec fn tpdo_frame(tpdo: Tpdo, objects: Objects) -> Option<Frame> {
    if tpdo.entries.len() == 0 {
        None
    } else {
        match pack_of(tpdo.entries, objects, 8) {
            Ok(data) => Some(Frame { cob_id: tpdo.cob_id, data }),
            Err(_) => None,
        }
    }
}

/// The frames of the SYNC-triggered PDOs, in order.
pub open spec fn sync_frames(tpdos: Seq<Tpdo>, objects: Objects) -> Seq<Frame>
    decreases tpdos.len(),
{
    if tpdos.len() == 0 {
        Seq::empty()
    } else {
        let front = sync_frames(tpdos.drop_last(), objects);
        match tpdo_frame(tpdos.last(), objects) {
            Some(f) => if tpdos.last().transmission.synchronous() {
                front.push(f)
            } else {
                front
            },
            None => front,
        }
    }
}

/// The dictionary with `value` set at `addr`, where there is such an object.
pub open spec fn set_if_present(objects: Objects, addr: Address, value: Value) -> Objects {
    match set_of(objects, addr, value) {
        Ok(after) => after,
        Err(_) => objects,
    }
}

/// The dictionary with the first `n` codes set at `0x1003` sub 1, 2, …, where
/// there are such objects.
pub open spec fn with_codes(objects: Objects, codes: Seq<u32>, n: nat) -> Objects
    decreases n,
{
    if n == 0 {
        objects
    } else {
        set_if_present(
            with_codes(objects, codes, (n - 1) as nat),
            Address { index: 0x1003, subindex: n as u8 },
            Value::Unsigned32(codes[n - 1]),
        )
    }
}

/// The dictionary with the error register at `0x1001`, the number of recorded
/// codes at `0x1003` sub 0 and the codes behind it, where there are such
/// objects.
pub open spec fn with_errors(objects: Objects, register: u8, codes: Seq<u32>) -> Objects {
    with_codes(
        set_if_present(
            set_if_present(
                objects,
                Address { index: 0x1001, subindex: 0 },
                Value::Unsigned8(register),
            ),
            Address { index: 0x1003, subindex: 0 },
            Value::Unsigned8(codes.len() as u8),
        ),
        codes,
        codes.len(),
    )
}

/// The readable `UNSIGNED32` at an address.
pub open spec fn u32_at(objects: Objects, index: u16, subindex: u8) -> Option<u32> {
    match read_of(objects, Address { index, subindex }) {
        Ok(Value::Unsigned32(v)) => Some(v),
        _ => None,
    }
}

/// The readable `UNSIGNED8` at an address.
pub open spec fn u8_at(objects: Objects, index: u16, subindex: u8) -> Option<u8> {
    match read_of(objects, Address { index, subindex }) {
        Ok(Value::Unsigned8(v)) => Some(v),
        _ => None,
    }
}

/// The objects that a mapping-parameter record lists: sub 0 counts them (at
/// most eight), sub 1, 2, … hold them. `None` if the record is incomplete.
pub open spec fn mapping_at(objects: Objects, index: u16) -> Option<Seq<MappingEntry>> {
    match u8_at(objects, index, 0) {
        None => None,
        Some(count) => {
            if count <= MAX_PDO_MAPPING && forall|sub: u8|
                1 <= sub <= count ==> #[trigger] u32_at(objects, index, sub) is Some {
                Some(
                    Seq::new(
                        count as nat,
                        |i: int|
                            MappingEntry::of_packed(u32_at(objects, index, (i + 1) as u8)->0),
                    ),
                )
            } else {
                None
            }
        },
    }
}

/// The receive PDO that the parameter objects `0x1400 + n` and `0x1600 + n`
/// describe; `None` if they are incomplete or mark it invalid.
pub open spec fn rpdo_at(objects: Objects, n: int) -> Option<Rpdo> {
    match (u32_at(objects, (0x1400 + n) as u16, 1), mapping_at(objects, (0x1600 + n) as u16)) {
        (Some(cob_id), Some(entries)) => if cob_id < 0x8000_0000 {
            Some(Rpdo { cob_id: (cob_id % 0x800) as u16, entries })
        } else {
            None
        },
        _ => None,
    }
}

/// The trigger that the parameter object `0x1800 + n` sub 2 holds, or
/// event-driven if it is absent or reserved.
pub open spec fn transmission_at(objects: Objects, n: int) -> TransmissionType {
    match u8_at(objects, (0x1800 + n) as u16, 2) {
        Some(byte) => match TransmissionType::of_byte(byte) {
            Some(t) => t,
            None => TransmissionType::EventDrivenProfile,
        },
        None => TransmissionType::EventDrivenProfile,
    }
}

/// The transmit PDO that the parameter objects `0x1800 + n` and `0x1A00 + n`
/// describe; `None` if they are incomplete or mark it invalid.
pub open spec fn tpdo_at(objects: Objects, n: int) -> Option<Tpdo> {
    match (u32_at(objects, (0x1800 + n) as u16, 1), mapping_at(objects, (0x1A00 + n) as u16)) {
        (Some(cob_id), Some(entries)) => if cob_id < 0x8000_0000 {
            Some(
                Tpdo {
                    cob_id: (cob_id % 0x800) as u16,
                    entries,
                    transmission: transmission_at(objects, n),
                },
            )
        } else {
            None
        },
        _ => None,
    }
}

/// The first `n` receive PDOs of the parameter objects.
pub open spec fn configured_rpdos(objects: Objects, n: nat) -> Seq<Rpdo>
    decreases n,
{
    if n == 0 {
        Seq::empty()
    } else {
        match rpdo_at(objects, n - 1) {
            Some(rpdo) => configured_rpdos(objects, (n - 1) as nat).push(rpdo),
            None => configured_rpdos(objects, (n - 1) as nat),
        }
    }
}

/// The first `n` transmit PDOs of the parameter objects.
pub open spec fn configured_tpdos(objects: Objects, n: nat) -> Seq<Tpdo>
    decreases n,
{
    if n == 0 {
        Seq::empty()
    } else {
        match tpdo_at(objects, n - 1) {
            Some(tpdo) => configured_tpdos(objects, (n - 1) as nat).push(tpdo),
            None => configured_tpdos(objects, (n - 1) as nat),
        }
    }
}

impl NodeState {
    /// A node that has just been created.
    pub open spec fn fresh(node_id: u8, objects: Objects) -> NodeState {
        NodeState {
            node_id,
            objects,
            sdo: ServerState::fresh(node_id),
            nmt: NmtState::Initialising,
            rpdos: Seq::empty(),
            tpdos: Seq::empty(),
            lss: None,
            guard_toggle: false,
            error_register: 0,
            error_history: Seq::empty(),
            sync_producer: None,
        }
    }

    /// Whether LSS is enabled and the node still has no node-id.
    pub open spec fn unconfigured(self) -> bool {
        self.lss matches Some(l) && l.node_id == UNCONFIGURED_NODE_ID
    }

    /// Whether SDO requests are served: in pre-operational and operational.
    pub open spec fn serves_sdo(self) -> bool {
        self.nmt == NmtState::PreOperational || self.nmt == NmtState::Operational
    }

    /// The node with another node-id, and a server for it.
    pub open spec fn with_node_id(self, node_id: u8) -> NodeState {
        NodeState { node_id, sdo: ServerState::fresh(node_id), ..self }
    }

    /// The node after the reset that follows an LSS configuration: a valid
    /// pending node-id becomes the node's.
    pub open spec fn with_assigned_id(self) -> NodeState {
        match self.lss {
            Some(l) => if 1 <= l.pending_node_id <= 127 {
                NodeState {
                    lss: Some(Slave { node_id: l.pending_node_id, ..l }),
                    ..self.with_node_id(l.pending_node_id)
                }
            } else {
                self
            },
            None => self,
        }
    }

    /// The node after an LSS request, and its answer.
    pub open spec fn after_lss(self, data: Seq<u8>) -> (NodeState, Option<Frame>) {
        match self.lss {
            None => (self, None),
            Some(slave) => if data.len() > 8 {
                (self, None)
            } else {
                let (next, answer) = slave.handle(padded(data));
                (
                    NodeState { lss: Some(next), ..self },
                    match answer {
                        Some(data) => Some(Frame { cob_id: LSS_SLAVE_COB_ID, data }),
                        None => None,
                    },
                )
            },
        }
    }

    /// The node after a node-control frame: the command applies if the frame
    /// addresses this node or all.
    pub open spec fn after_nmt(self, data: Seq<u8>) -> NodeState {
        if data.len() < 2 {
            self
        } else {
            match NmtCommand::of_byte(data[0]) {
                Some(command) => if data[1] == 0 || data[1] == self.node_id {
                    NodeState { nmt: next_state(self.nmt, command), ..self }
                } else {
                    self
                },
                None => self,
            }
        }
    }

    /// The node after an SDO request, and its response.
    pub open spec fn after_sdo(self, data: Seq<u8>) -> (NodeState, Option<Frame>) {
        if !self.serves_sdo() || data.len() > 8 {
            (self, None)
        } else {
            let served = self.sdo.serve(self.objects, padded(data));
            (
                NodeState { sdo: served.state, objects: served.objects, ..self },
                match served.response {
                    Some(data) => Some(
                        Frame { cob_id: (SDO_RESPONSE_COB_BASE + self.node_id) as u16, data },
                    ),
                    None => None,
                },
            )
        }
    }

    /// The node after a frame that may be one of its receive PDOs. PDOs are
    /// exchanged only in the operational state.
    pub open spec fn after_rpdo(self, cob_id: u16, data: Seq<u8>) -> NodeState {
        if self.nmt != NmtState::Operational {
            self
        } else {
            match rpdo_for(self.rpdos, cob_id) {
                Some(rpdo) => NodeState {
                    objects: unpack_of(rpdo.entries, self.objects, data).0,
                    ..self
                },
                None => self,
            }
        }
    }

    /// The node after a frame, and what it transmits in answer.
    pub open spec fn after_frame(self, cob_id: u16, data: Seq<u8>) -> (NodeState, Option<Frame>) {
        if cob_id == LSS_MASTER_COB_ID {
            self.after_lss(data)
        } else if self.unconfigured() {
            (self, None)
        } else if cob_id == NMT_COMMAND_COB_ID {
            (self.after_nmt(data), None)
        } else if cob_id == SDO_REQUEST_COB_BASE + self.node_id {
            self.after_sdo(data)
        } else {
            (self.after_rpdo(cob_id, data), None)
        }
    }

    /// The frames to transmit on a SYNC.
    pub open spec fn on_sync(self) -> Seq<Frame> {
        if self.nmt == NmtState::Operational {
            sync_frames(self.tpdos, self.objects)
        } else {
            Seq::empty()
        }
    }

    /// The frame of transmit PDO `index` on demand.
    pub open spec fn on_demand(self, index: int) -> Option<Frame> {
        if self.nmt == NmtState::Operational && index < self.tpdos.len() {
            tpdo_frame(self.tpdos[index], self.objects)
        } else {
            None
        }
    }

    /// The node when it has booted.
    pub open spec fn after_boot(self) -> NodeState {
        NodeState { nmt: booted(self.nmt), guard_toggle: false, ..self }
    }

    /// An error-control frame of the node: boot-up, heartbeat or node guarding.
    pub open spec fn error_control(self, byte: u8) -> Frame {
        Frame { cob_id: (HEARTBEAT_COB_BASE + self.node_id) as u16, data: seq![byte] }
    }

    /// The node when it has answered a node-guarding poll, and its answer.
    pub open spec fn after_guard(self) -> (NodeState, Frame) {
        (
            NodeState { guard_toggle: !self.guard_toggle, ..self },
            self.error_control(guard_byte(self.nmt, self.guard_toggle)),
        )
    }

    /// The node when it has produced a SYNC, and its frame.
    pub open spec fn after_sync(self) -> (NodeState, Option<Frame>) {
        match self.sync_producer {
            None => (self, None),
            Some(p) => if p.overflow >= 2 {
                let count = next_count(p.overflow, p.count);
                (
                    NodeState { sync_producer: Some(SyncProducer { count, ..p }), ..self },
                    Some(Frame { cob_id: SYNC_COB_ID, data: seq![count] }),
                )
            } else {
                (self, Some(Frame { cob_id: SYNC_COB_ID, data: Seq::empty() }))
            },
        }
    }

    /// The frame that reports an emergency, from the node as it then is.
    pub open spec fn emergency_frame(self, code: u16, info: [u8; 5]) -> Frame {
        Frame {
            cob_id: (EMCY_COB_BASE + self.node_id) as u16,
            data: (EmergencyMessage {
                error_code: code,
                error_register: ErrorRegister(self.error_register),
                vendor_specific: info,
            }).encoding(),
        }
    }

    /// The node with its errors mirrored into its dictionary.
    pub open spec fn mirrored(self) -> NodeState {
        NodeState {
            objects: with_errors(self.objects, self.error_register, self.error_history),
            ..self
        }
    }

    /// The history with `code` recorded in front, the oldest dropped once full.
    pub open spec fn recorded(self, code: u16) -> Seq<u32> {
        let all = seq![code as u32] + self.error_history;
        if all.len() > MAX_ERROR_HISTORY {
            all.take(MAX_ERROR_HISTORY as int)
        } else {
            all
        }
    }

    /// The node after an emergency: the register gains the bits given and the
    /// generic bit, and the code is recorded.
    pub open spec fn after_emergency(self, code: u16, register: u8) -> NodeState {
        NodeState {
            error_register: self.error_register | (register | ErrorRegister::GENERIC),
            error_history: self.recorded(code),
            ..self
        }.mirrored()
    }

    /// The node after its errors were cleared.
    pub open spec fn after_clear(self) -> NodeState {
        NodeState { error_register: 0, error_history: Seq::empty(), ..self }.mirrored()
    }

    /// The node with its PDOs as the parameter objects describe them.
    pub open spec fn reconfigured(self) -> NodeState {
        NodeState {
            rpdos: configured_rpdos(self.objects, MAX_PDOS as nat),
            tpdos: configured_tpdos(self.objects, MAX_PDOS as nat),
            ..self
        }
    }

    /// The tables are within their bounds, the server has the node's id, and
    /// the SYNC counter is valid.
    pub open spec fn wf(self) -> bool {
        &&& self.node_id <= 127
        &&& self.sdo.node == self.node_id
        &&& self.rpdos.len() <= MAX_PDOS
        &&& self.tpdos.len() <= MAX_PDOS
        &&& self.error_history.len() <= MAX_ERROR_HISTORY
        &&& self.sync_producer matches Some(p) ==> valid_overflow(p.overflow)
    }
}

// --- The node --------------------------------------------------------------

/// A configured receive PDO: the COB-ID it listens on and its object mapping.
#[derive(Debug)]
pub struct RpdoSlot {
    cob_id: u16,
    mapping: PdoMapping<MAX_PDO_MAPPING>,
}

impl RpdoSlot {
    spec fn model(self) -> Rpdo {
        Rpdo { cob_id: self.cob_id, entries: self.mapping@ }
    }
}

/// A configured transmit PDO: its COB-ID, object mapping, and trigger type.
#[derive(Debug)]
pub struct TpdoSlot {
    cob_id: u16,
    mapping: PdoMapping<MAX_PDO_MAPPING>,
    transmission: TransmissionType,
}

impl TpdoSlot {
    spec fn model(self) -> Tpdo {
        Tpdo {
            cob_id: self.cob_id,
            entries: self.mapping@,
            transmission: self.transmission,
        }
    }
}

spec fn rpdo_models(slots: Seq<RpdoSlot>) -> Seq<Rpdo> {
    slots.map_values(|s: RpdoSlot| s.model())
}

spec fn tpdo_models(slots: Seq<TpdoSlot>) -> Seq<Tpdo> {
    slots.map_values(|s: TpdoSlot| s.model())
}

/// A CANopen device node: an object dictionary served over SDO, with NMT state,
/// heartbeat/boot-up production, and PDO exchange.
#[derive(Debug)]
pub struct Node<const N: usize> {
    node_id: NodeId,
    od: ObjectDictionary<N>,
    sdo: SdoServer,
    nmt: NmtStateMachine,
    rpdos: heapless::Vec<RpdoSlot, MAX_PDOS>,
    tpdos: heapless::Vec<TpdoSlot, MAX_PDOS>,
    lss: Option<LssSlave>,
    guard_toggle: bool,
    error_register: u8,
    error_history: heapless::Vec<u32, MAX_ERROR_HISTORY>,
    sync_producer: Option<SyncCounter>,
}

impl<const N: usize> View for Node<N> {
    type V = NodeState;

    closed spec fn view(&self) -> NodeState {
        NodeState {
            node_id: self.node_id@,
            objects: self.od@,
            sdo: self.sdo@,
            nmt: self.nmt@,
            rpdos: rpdo_models(rpdos_in(self.rpdos)),
            tpdos: tpdo_models(tpdos_in(self.tpdos)),
            lss: match self.lss {
                Some(l) => Some(l@),
                None => None,
            },
            guard_toggle: self.guard_toggle,
            error_register: self.error_register,
            error_history: codes_in(self.error_history),
            sync_producer: match self.sync_producer {
                Some(c) => Some(SyncProducer { overflow: c.overflow(), count: c.count() }),
                None => None,
            },
        }
    }
}

impl<const N: usize> Node<N> {
    /// The state and the parts are well formed.
    pub open spec fn wf(self) -> bool {
        &&& self@.wf()
        &&& self.parts_wf()
    }

    /// The dictionary, the SDO server and the SYNC producer are well formed.
    pub closed spec fn parts_wf(self) -> bool {
        &&& self.od.wf()
        &&& self.sdo.wf()
        &&& self.sync_producer matches Some(c) ==> c.wf()
    }

    /// Create a node with `node_id` serving `od`. It starts in
    /// [`NmtState::Initialising`]; call [`Node::boot`] to go operational-ready.
    pub fn new(node_id: NodeId, od: ObjectDictionary<N>) -> (n: Self)
        requires
            od.wf(),
        ensures
            n.wf(),
            n@ == NodeState::fresh(node_id@, od@),
    {
        let raw: u8 = node_id.raw();
        let n = Self {
            node_id,
            od,
            sdo: SdoServer::new(node_id),
            nmt: NmtStateMachine::new(),
            rpdos: new_rpdos(),
            tpdos: new_tpdos(),
            lss: None,
            guard_toggle: false,
            error_register: 0,
            error_history: new_codes(),
            sync_producer: None,
        };
        assert(raw == node_id@);
        assert(n@.rpdos =~= Seq::empty());
        assert(n@.tpdos =~= Seq::empty());
        n
    }

    /// Enable LSS with this node's 128-bit identity ([`LssAddress`], object
    /// `0x1018`). The node then answers LSS master requests on `0x7E5`, letting
    /// a master (re)assign its node-id over the bus.
    ///
    /// A node awaiting an LSS-assigned id should be left in
    /// [`NmtState::Initialising`] (do not call [`Node::boot`]) so it serves only
    /// LSS; after the id is assigned, call [`Node::apply_lss_node_id`] then boot.
    pub fn enable_lss(&mut self, address: LssAddress)
        requires
            old(self).wf(),
        ensures
            final(self).wf(),
            final(self)@ == (NodeState {
                lss: Some(Slave::fresh(address, old(self)@.node_id)),
                ..old(self)@
            }),
    {
        self.lss = Some(LssSlave::new(address, self.node_id.raw()));
    }

    /// Enable LSS on a node that comes up **unconfigured** — it has no node-id
    /// yet, so it answers *only* LSS (including [`FastscanMaster`] discovery,
    /// when the master doesn't know its address) and serves no SDO, NMT, or PDO
    /// traffic until a master assigns an id. Construct the node with any
    /// placeholder id, call this, and leave it in [`NmtState::Initialising`]
    /// (do not [`boot`](Node::boot)); once the id is assigned over LSS, call
    /// [`Node::apply_lss_node_id`] on the node's reset, then boot.
    ///
    /// [`FastscanMaster`]: crate::lss::FastscanMaster
    pub fn enable_lss_unconfigured(&mut self, address: LssAddress)
        requires
            old(self).wf(),
        ensures
            final(self).wf(),
            final(self)@ == (NodeState {
                lss: Some(Slave::fresh(address, UNCONFIGURED_NODE_ID)),
                ..old(self)@
            }),
    {
        self.lss = Some(LssSlave::new(address, UNCONFIGURED_NODE_ID));
    }

    /// Whether LSS is enabled and the node is still unconfigured (no node-id),
    /// so it should serve only LSS.
    fn lss_unconfigured(&self) -> (b: bool)
        ensures
            b == self@.unconfigured(),
    {
        match &self.lss {
            Some(l) => l.node_id() == UNCONFIGURED_NODE_ID,
            None => false,
        }
    }

    /// Change the node-id, rebuilding the SDO server for the new COB-IDs. Call
    /// on the reset that follows an LSS reconfiguration.
    pub fn set_node_id(&mut self, node_id: NodeId)
        requires
            old(self).wf(),
        ensures
            final(self).wf(),
            final(self)@ == old(self)@.with_node_id(node_id@),
    {
        let raw: u8 = node_id.raw();
        assert(raw == node_id@);
        self.node_id = node_id;
        self.sdo = SdoServer::new(node_id);
    }

    /// Adopt a node-id assigned over LSS: if the LSS slave holds a valid pending
    /// id, apply it (rebuilding the SDO server) and return it. Call this on the
    /// node's reset after an LSS configuration.
    pub fn apply_lss_node_id(&mut self) -> (r: Option<NodeId>)
        requires
            old(self).wf(),
        ensures
            final(self).wf(),
            final(self)@ == old(self)@.with_assigned_id(),
            match old(self)@.lss {
                Some(l) => if 1 <= l.pending_node_id <= 127 {
                    r matches Some(id) && id@ == l.pending_node_id
                } else {
                    r is None
                },
                None => r is None,
            },
    {
        let pending: u8 = match &self.lss {
            Some(l) => l.pending_node_id(),
            None => {
                return None;
            },
        };
        let node_id = match NodeId::new(pending) {
            Ok(id) => id,
            Err(_) => {
                return None;
            },
        };
        self.set_node_id(node_id);
        match &mut self.lss {
            Some(l) => l.adopt_pending(),
            None => {},
        }
        Some(node_id)
    }

    /// The LSS slave, if LSS is enabled (e.g. to read its pending node-id).
    pub fn lss(&self) -> (r: Option<&LssSlave>)
        ensures
            match self@.lss {
                Some(l) => r matches Some(slave) && slave@ == l,
                None => r is None,
            },
    {
        self.lss.as_ref()
    }

    /// Configure a receive PDO: when a frame arrives on `cob_id` (while
    /// operational), its bytes are unpacked into the mapped objects.
    ///
    /// Returns [`Error::MappingFull`] once [`MAX_PDOS`] receive PDOs are set.
    pub fn add_rpdo(&mut self, cob_id: u16, mapping: PdoMapping<MAX_PDO_MAPPING>) -> (r: Result<()>)
        requires
            old(self).wf(),
        ensures
            final(self).wf(),
            r is Ok <==> old(self)@.rpdos.len() < MAX_PDOS,
            r is Ok ==> final(self)@ == (NodeState {
                rpdos: old(self)@.rpdos.push(Rpdo { cob_id, entries: mapping@ }),
                ..old(self)@
            }),
            r matches Err(e) ==> e == Error::MappingFull && final(self)@ == old(self)@,
    {
        match push_rpdo(&mut self.rpdos, RpdoSlot { cob_id, mapping }) {
            Ok(()) => {
                assert(self@.rpdos =~= old(self)@.rpdos.push(Rpdo { cob_id, entries: mapping@ }));
                Ok(())
            },
            Err(_) => Err(Error::MappingFull),
        }
    }

    /// Configure a transmit PDO: [`Node::sync_tpdos`] packs and emits it on SYNC
    /// (for synchronous types) and [`Node::tpdo`] emits it on demand.
    ///
    /// Returns [`Error::MappingFull`] once [`MAX_PDOS`] transmit PDOs are set.
    pub fn add_tpdo(
        &mut self,
        cob_id: u16,
        mapping: PdoMapping<MAX_PDO_MAPPING>,
        transmission: TransmissionType,
    ) -> (r: Result<()>)
        requires
            old(self).wf(),
        ensures
            final(self).wf(),
            r is Ok <==> old(self)@.tpdos.len() < MAX_PDOS,
            r is Ok ==> final(self)@ == (NodeState {
                tpdos: old(self)@.tpdos.push(Tpdo { cob_id, entries: mapping@, transmission }),
                ..old(self)@
            }),
            r matches Err(e) ==> e == Error::MappingFull && final(self)@ == old(self)@,
    {
        match push_tpdo(&mut self.tpdos, TpdoSlot { cob_id, mapping, transmission }) {
            Ok(()) => {
                assert(self@.tpdos =~= old(self)@.tpdos.push(
                    Tpdo { cob_id, entries: mapping@, transmission },
                ));
                Ok(())
            },
            Err(_) => Err(Error::MappingFull),
        }
    }

    /// (Re)build the PDO configuration from the PDO parameter objects in the
    /// object dictionary — communication parameters at `0x1400`+ (RPDO) /
    /// `0x1800`+ (TPDO) and mapping parameters at `0x1600`+ / `0x1A00`+ (CiA 301
    /// §7.5.2). Call this after a master configures PDOs by writing those
    /// objects over SDO, so the node picks up the new layout.
    ///
    /// Any programmatic PDO configuration is replaced. PDOs whose communication
    /// COB-ID has the "invalid" bit set are skipped, as are entries that are
    /// absent or malformed.
    pub fn configure_pdos_from_od(&mut self)
        requires
            old(self).wf(),
        ensures
            final(self).wf(),
            final(self)@ == old(self)@.reconfigured(),
    {
        let mut rpdos = new_rpdos();
        let mut tpdos = new_tpdos();
        let mut n: u16 = 0;
        assert(rpdo_models(rpdos_in(rpdos)) =~= configured_rpdos(self@.objects, 0));
        assert(tpdo_models(tpdos_in(tpdos)) =~= configured_tpdos(self@.objects, 0));
        while n < 4
            invariant
                n <= 4,
                self.wf(),
                self@ == old(self)@,
                rpdo_models(rpdos_in(rpdos)) == configured_rpdos(self@.objects, n as nat),
                tpdo_models(tpdos_in(tpdos)) == configured_tpdos(self@.objects, n as nat),
                rpdos_in(rpdos).len() <= n,
                tpdos_in(tpdos).len() <= n,
            decreases 4 - n,
        {
            let ghost rbefore = rpdos_in(rpdos);
            let ghost tbefore = tpdos_in(tpdos);
            if let Some(slot) = build_rpdo(&self.od, n) {
                let _ = push_rpdo(&mut rpdos, slot);
                assert(rpdo_models(rpdos_in(rpdos)) =~= rpdo_models(rbefore).push(slot.model()));
            }
            if let Some(slot) = build_tpdo(&self.od, n) {
                let _ = push_tpdo(&mut tpdos, slot);
                assert(tpdo_models(tpdos_in(tpdos)) =~= tpdo_models(tbefore).push(slot.model()));
            }
            n += 1;
        }
        self.rpdos = rpdos;
        self.tpdos = tpdos;
    }

    /// Take the address of the object a master most recently wrote over SDO,
    /// clearing it. Poll after [`Node::on_frame`] to react to configuration
    /// writes — for example, re-read the PDO layout when a PDO parameter object
    /// (`0x1400`–`0x1BFF`) changes.
    pub fn take_written_object(&mut self) -> (r: Option<Address>)
        requires
            old(self).wf(),
        ensures
            final(self).wf(),
            r == old(self)@.sdo.written,
            final(self)@ == (NodeState {
                sdo: ServerState { written: None, ..old(self)@.sdo },
                ..old(self)@
            }),
    {
        self.sdo.take_write()
    }

    /// This node's id.
    pub fn node_id(&self) -> (id: NodeId)
        ensures
            id@ == self@.node_id,
    {
        self.node_id
    }

    /// The current NMT state.
    pub fn state(&self) -> (s: NmtState)
        ensures
            s == self@.nmt,
    {
        self.nmt.state()
    }

    /// Borrow the object dictionary (e.g. to publish process data).
    pub fn od(&self) -> (od: &ObjectDictionary<N>)
        requires
            self.wf(),
        ensures
            od.wf(),
            od@ == self@.objects,
    {
        &self.od
    }

    /// Mutably borrow the object dictionary.
    pub fn od_mut(&mut self) -> (od: &mut ObjectDictionary<N>)
        requires
            old(self).wf(),
        ensures
            od.wf(),
            od@ == old(self)@.objects,
            final(self)@ == (NodeState { objects: final(od)@, ..old(self)@ }),
            final(od).wf() ==> final(self).wf(),
    {
        &mut self.od
    }

    /// Finish initialisation: enter pre-operational and return the boot-up
    /// frame to transmit (`0x700 + node`, data `0x00`).
    pub fn boot(&mut self) -> (f: TxFrame)
        requires
            old(self).wf(),
        ensures
            final(self).wf(),
            final(self)@ == (NodeState {
                nmt: booted(old(self)@.nmt),
                guard_toggle: false,
                ..old(self)@
            }),
            f@ == (Frame {
                cob_id: (HEARTBEAT_COB_BASE + old(self)@.node_id) as u16,
                data: seq![0u8],
            }),
            final(self)@ == old(self)@.after_boot(),
            f@ == old(self)@.error_control(0),
    {
        self.nmt.boot();
        self.guard_toggle = false;
        let frame = BOOTUP_FRAME;
        assert(frame@ =~= seq![0u8]);
        TxFrame::new(heartbeat_cob_id(self.node_id), &frame)
    }

    /// The node-guarding response frame (`0x700 + node`), reporting the current
    /// state with an alternating toggle bit. Call this when the master polls the
    /// node with an RTR frame on that COB-ID (the legacy error-control
    /// alternative to [`Node::heartbeat`]).
    pub fn node_guard_response(&mut self) -> (f: TxFrame)
        requires
            old(self).wf(),
        ensures
            final(self).wf(),
            final(self)@ == (NodeState {
                guard_toggle: !old(self)@.guard_toggle,
                ..old(self)@
            }),
            f@ == (Frame {
                cob_id: (HEARTBEAT_COB_BASE + old(self)@.node_id) as u16,
                data: seq![guard_byte(old(self)@.nmt, old(self)@.guard_toggle)],
            }),
            (final(self)@, f@) == old(self)@.after_guard(),
    {
        let byte: u8 = encode_node_guard(self.nmt.state(), self.guard_toggle);
        self.guard_toggle = !self.guard_toggle;
        let frame = [byte];
        assert(frame@ =~= seq![byte]);
        TxFrame::new(heartbeat_cob_id(self.node_id), &frame)
    }

    /// The heartbeat frame for the current state. Transmit it on your heartbeat
    /// timer (the producer heartbeat time lives in object `0x1017`).
    pub fn heartbeat(&self) -> (f: TxFrame)
        requires
            self.wf(),
        ensures
            f@ == (Frame {
                cob_id: (HEARTBEAT_COB_BASE + self@.node_id) as u16,
                data: seq![self@.nmt.wire()],
            }),
            f@ == self@.error_control(self@.nmt.wire()),
    {
        TxFrame::new(heartbeat_cob_id(self.node_id), &encode_heartbeat(self.nmt.state()))
    }

    /// The current error register (object `0x1001`): the bitfield of active
    /// error classes.
    pub fn error_register(&self) -> (r: ErrorRegister)
        ensures
            r == ErrorRegister(self@.error_register),
    {
        ErrorRegister(self.error_register)
    }

    /// The pre-defined error field (object `0x1003`): recorded emergency codes,
    /// most-recent-first (up to [`MAX_ERROR_HISTORY`]). The low 16 bits of each
    /// entry are the emergency error code.
    pub fn error_history(&self) -> (codes: &[u32])
        ensures
            codes@ == self@.error_history,
    {
        codes_slice(&self.error_history)
    }

    /// Raise an emergency: set `register` (and the generic bit) in the error
    /// register, record `code` at the front of the pre-defined error field,
    /// mirror both into the object dictionary (`0x1001` / `0x1003`) when those
    /// objects exist, and return the EMCY frame to transmit on `0x080 + node`.
    ///
    /// `info` carries five manufacturer-specific bytes in the frame. The
    /// returned frame must still be transmitted by the caller.
    pub fn raise_emergency(&mut self, code: u16, register: ErrorRegister, info: [u8; 5]) -> (f:
        TxFrame)
        requires
            old(self).wf(),
        ensures
            final(self).wf(),
            final(self)@ == old(self)@.after_emergency(code, register.0),
            f@ == (Frame {
                cob_id: (EMCY_COB_BASE + old(self)@.node_id) as u16,
                data: (EmergencyMessage {
                    error_code: code,
                    error_register: ErrorRegister(final(self)@.error_register),
                    vendor_specific: info,
                }).encoding(),
            }),
            f@ == final(self)@.emergency_frame(code, info),
    {
        // Any active error sets the generic bit (CiA 301 §7.5.2.2).
        self.error_register = self.error_register | (register.0 | ErrorRegister::GENERIC);

        // Record most-recent-first, dropping the oldest once full.
        let ghost history = codes_in(self.error_history);
        if codes_slice(&self.error_history).len() == MAX_ERROR_HISTORY {
            let _ = pop_code(&mut self.error_history);
        }
        let _ = insert_code(&mut self.error_history, 0, code as u32);
        assert(codes_in(self.error_history) =~= old(self)@.recorded(code));

        self.mirror_error_objects();
        let msg = EmergencyMessage::new(code, ErrorRegister(self.error_register), info);
        let payload = msg.encode();
        TxFrame::new(emcy_cob_id(self.node_id), &payload)
    }

    /// Clear all errors: reset the error register and pre-defined error field,
    /// mirror the cleared state into the object dictionary, and return an
    /// *error-reset* EMCY frame (code `0x0000`) to transmit.
    pub fn clear_errors(&mut self) -> (f: TxFrame)
        requires
            old(self).wf(),
        ensures
            final(self).wf(),
            final(self)@ == old(self)@.after_clear(),
            f@ == (Frame {
                cob_id: (EMCY_COB_BASE + old(self)@.node_id) as u16,
                data: seq![0u8, 0, 0, 0, 0, 0, 0, 0],
            }),
    {
        self.error_register = 0;
        clear_codes(&mut self.error_history);
        self.mirror_error_objects();
        let msg = EmergencyMessage::error_reset();
        let payload = msg.encode();
        proof {
            crate::little_endian::lemma_le_bytes_len(0, 2);
            reveal_with_fuel(crate::little_endian::le_bytes, 3);
            assert(payload@ =~= seq![0u8, 0, 0, 0, 0, 0, 0, 0]);
        }
        TxFrame::new(emcy_cob_id(self.node_id), &payload)
    }

    /// Mirror the error register and pre-defined error field into the object
    /// dictionary so a master can read them over SDO. Best effort: absent (or
    /// wrongly-typed) objects are simply skipped, so a node that does not model
    /// `0x1001` / `0x1003` still works.
    fn mirror_error_objects(&mut self)
        requires
            old(self).wf(),
        ensures
            final(self).wf(),
            final(self)@ == old(self)@.mirrored(),
    {
        let codes: &[u32] = codes_slice(&self.error_history);
        let _ = self.od.set(Address::new(0x1001, 0), Value::Unsigned8(self.error_register));
        let count: u8 = codes.len() as u8;
        let _ = self.od.set(Address::new(0x1003, 0), Value::Unsigned8(count));
        let ghost base = self.od@;
        let mut i: u8 = 0;
        while i < count
            invariant
                i <= count,
                count == codes@.len() <= MAX_ERROR_HISTORY,
                codes@ == old(self)@.error_history,
                self.od.wf(),
                self.od@ == with_codes(base, codes@, i as nat),
                self@ == (NodeState { objects: self.od@, ..old(self)@ }),
                self.sdo.wf(),
                self.sync_producer matches Some(c) ==> c.wf(),
            decreases count - i,
        {
            let _ = self.od.set(
                Address::new(0x1003, i + 1),
                Value::Unsigned32(codes[i as usize]),
            );
            i += 1;
        }
    }

    /// Configure this node as the network **SYNC producer**, with the given
    /// synchronous-counter-overflow value (object `0x1019`): `0` produces
    /// counter-less (empty) SYNC frames, and `2..=240` a counting SYNC.
    ///
    /// Returns [`Error::InvalidSyncCounter`] for the reserved value `1` or any
    /// value above `240`.
    pub fn enable_sync_producer(&mut self, counter_overflow: u8) -> (r: Result<()>)
        requires
            old(self).wf(),
        ensures
            final(self).wf(),
            r is Ok <==> valid_overflow(counter_overflow),
            r is Ok ==> final(self)@ == (NodeState {
                sync_producer: Some(SyncProducer { overflow: counter_overflow, count: 0 }),
                ..old(self)@
            }),
            r matches Err(e) ==> e == Error::InvalidSyncCounter && final(self)@ == old(self)@,
    {
        match SyncCounter::new(counter_overflow) {
            Ok(counter) => {
                self.sync_producer = Some(counter);
                Ok(())
            },
            Err(e) => Err(e),
        }
    }

    /// Produce the next SYNC frame to broadcast on [`SYNC_COB_ID`](crate::sync::SYNC_COB_ID),
    /// advancing the counter when one is configured. Returns `None` unless the
    /// node is a SYNC producer (see [`enable_sync_producer`](Node::enable_sync_producer)).
    ///
    /// Call this on your SYNC-period timer. SYNC is a broadcast network service,
    /// so it is emitted independently of this node's own NMT state; gate the
    /// call on the network state yourself if you only want SYNC while
    /// operational.
    pub fn produce_sync(&mut self) -> (r: Option<TxFrame>)
        requires
            old(self).wf(),
        ensures
            final(self).wf(),
            match old(self)@.sync_producer {
                None => r is None && final(self)@ == old(self)@,
                Some(p) => if p.overflow >= 2 {
                    let count = next_count(p.overflow, p.count);
                    &&& transmits(r, Some(Frame { cob_id: SYNC_COB_ID, data: seq![count] }))
                    &&& final(self)@ == (NodeState {
                        sync_producer: Some(SyncProducer { count, ..p }),
                        ..old(self)@
                    })
                } else {
                    &&& transmits(r, Some(Frame { cob_id: SYNC_COB_ID, data: Seq::empty() }))
                    &&& final(self)@ == old(self)@
                },
            },
            final(self)@ == old(self)@.after_sync().0,
            transmits(r, old(self)@.after_sync().1),
    {
        match &mut self.sync_producer {
            None => None,
            Some(counter) => match counter.advance() {
                Some(count) => Some(TxFrame::new(SYNC_COB_ID, &encode_counter(count))),
                None => {
                    let none: [u8; 0] = [];
                    assert(none@ =~= Seq::empty());
                    Some(TxFrame::new(SYNC_COB_ID, &none))
                },
            },
        }
    }

    /// Process an incoming CAN frame, returning a response to transmit, if any.
    ///
    /// Handles NMT node-control (`0x000`), SDO requests (`0x600 + node`), LSS
    /// master requests (`0x7E5`, when enabled), and received PDOs. SDO is served
    /// only in pre-operational and operational states, and PDOs only in
    /// operational, per CiA 301; LSS is served regardless of NMT state. Frames
    /// for other COB-IDs are ignored.
    ///
    /// While the node is LSS-unconfigured (see [`Node::enable_lss_unconfigured`])
    /// it serves *only* LSS — everything else is ignored until a node-id is
    /// assigned — since its data COB-IDs are not yet meaningful.
    pub fn on_frame(&mut self, cob_id: u16, data: &[u8]) -> (r: Option<TxFrame>)
        requires
            old(self).wf(),
        ensures
            final(self).wf(),
            final(self)@ == old(self)@.after_frame(cob_id, data@).0,
            transmits(r, old(self)@.after_frame(cob_id, data@).1),
    {
        if cob_id == LSS_MASTER_COB_ID {
            return self.on_lss(data);
        }
        if self.lss_unconfigured() {
            return None;  // no node-id yet: LSS only
        }
        if cob_id == NMT_COMMAND_COB_ID {
            self.on_nmt(data);
            None
        } else if cob_id == self.sdo.request_cob_id() {
            self.on_sdo(data)
        } else {
            self.on_rpdo(cob_id, data);
            None
        }
    }

    fn on_lss(&mut self, data: &[u8]) -> (r: Option<TxFrame>)
        requires
            old(self).wf(),
        ensures
            final(self).wf(),
            final(self)@ == old(self)@.after_lss(data@).0,
            transmits(r, old(self)@.after_lss(data@).1),
    {
        match &mut self.lss {
            None => None,
            Some(slave) => {
                if data.len() > 8 {
                    return None;
                }
                let frame = pad8(data);
                match slave.handle(&frame) {
                    Some(resp) => Some(TxFrame::new(LSS_SLAVE_COB_ID, &resp)),
                    None => None,
                }
            },
        }
    }

    /// The synchronous transmit PDOs to send in response to a SYNC.
    ///
    /// Packs every configured TPDO with a synchronous transmission type from the
    /// current object dictionary. Empty unless the node is operational — PDOs
    /// are exchanged only in that state (CiA 301 §7.3.5).
    pub fn sync_tpdos(&self) -> (frames: heapless::Vec<TxFrame, MAX_PDOS>)
        requires
            self.wf(),
        ensures
            frames_in(frames).map_values(|f: TxFrame| f@) == self@.on_sync(),
    {
        let mut frames = new_frames();
        assert(frames_in(frames).map_values(|f: TxFrame| f@) =~= Seq::empty());
        if self.nmt.state() != NmtState::Operational {
            return frames;
        }
        let slots: &[TpdoSlot] = tpdos_slice(&self.tpdos);
        let mut i: usize = 0;
        assert(self@.tpdos.take(0) =~= Seq::empty());
        while i < slots.len()
            invariant
                self.wf(),
                i <= slots@.len() <= MAX_PDOS,
                self@.tpdos == tpdo_models(slots@),
                frames_in(frames).len() <= i,
                frames_in(frames).map_values(|f: TxFrame| f@) == sync_frames(
                    self@.tpdos.take(i as int),
                    self@.objects,
                ),
            decreases slots@.len() - i,
        {
            let ghost before = frames_in(frames);
            proof {
                assert(self@.tpdos.take(i + 1).drop_last() =~= self@.tpdos.take(i as int));
                assert(self@.tpdos.take(i + 1).last() == slots@[i as int].model());
            }
            let slot = &slots[i];
            if is_synchronous(slot.transmission) {
                if let Some(frame) = self.build_tpdo(slot) {
                    // Capacity matches self.tpdos, so this never overflows.
                    let _ = push_frame(&mut frames, frame);
                    assert(frames_in(frames).map_values(|f: TxFrame| f@) =~= before.map_values(
                        |f: TxFrame| f@,
                    ).push(frame@));
                }
            }
            i += 1;
        }
        assert(self@.tpdos.take(self@.tpdos.len() as int) =~= self@.tpdos);
        frames
    }

    /// Emit transmit PDO `index` on demand (an event-driven transmission), or
    /// `None` if there is no such PDO or the node is not operational.
    pub fn tpdo(&self, index: usize) -> (r: Option<TxFrame>)
        requires
            self.wf(),
        ensures
            transmits(
                r,
                if self@.nmt == NmtState::Operational && index < self@.tpdos.len() {
                    tpdo_frame(self@.tpdos[index as int], self@.objects)
                } else {
                    None
                },
            ),
            transmits(r, self@.on_demand(index as int)),
    {
        if self.nmt.state() != NmtState::Operational {
            return None;
        }
        let slots: &[TpdoSlot] = tpdos_slice(&self.tpdos);
        if index >= slots.len() {
            return None;
        }
        self.build_tpdo(&slots[index])
    }

    fn build_tpdo(&self, slot: &TpdoSlot) -> (r: Option<TxFrame>)
        requires
            self.wf(),
        ensures
            transmits(r, tpdo_frame(slot.model(), self@.objects)),
    {
        if slot.mapping.is_empty() {
            return None;
        }
        let mut buf = [0u8; 8];
        match pack(&slot.mapping, &self.od, &mut buf) {
            Ok(len) => {
                let bytes: &[u8] = &buf[0..len];
                proof {
                    let packed = pack_of(slot.mapping@, self.od@, 8)->Ok_0;
                    assert(bytes@ =~= packed);
                }
                Some(TxFrame::new(slot.cob_id, bytes))
            },
            Err(_) => None,
        }
    }

    fn on_rpdo(&mut self, cob_id: u16, data: &[u8])
        requires
            old(self).wf(),
        ensures
            final(self).wf(),
            final(self)@ == old(self)@.after_rpdo(cob_id, data@),
    {
        // PDOs are exchanged only in the operational state.
        if self.nmt.state() != NmtState::Operational {
            return;
        }
        let slots: &[RpdoSlot] = rpdos_slice(&self.rpdos);
        let mut i: usize = 0;
        assert(self@.rpdos.skip(0) =~= self@.rpdos);
        while i < slots.len()
            invariant
                i <= slots@.len(),
                self.wf(),
                self@ == old(self)@,
                self@.rpdos == rpdo_models(slots@),
                self@.nmt == NmtState::Operational,
                rpdo_for(self@.rpdos, cob_id) == rpdo_for(self@.rpdos.skip(i as int), cob_id),
            decreases slots@.len() - i,
        {
            proof {
                assert(self@.rpdos.skip(i as int)[0] == slots@[i as int].model());
                assert(self@.rpdos.skip(i as int).drop_first() =~= self@.rpdos.skip(i + 1));
            }
            if slots[i].cob_id == cob_id {
                let _ = unpack(&slots[i].mapping, &mut self.od, data);
                return;
            }
            i += 1;
        }
    }

    fn on_nmt(&mut self, data: &[u8])
        requires
            old(self).wf(),
        ensures
            final(self).wf(),
            final(self)@ == old(self)@.after_nmt(data@),
    {
        // An NMT node-control frame is [command specifier, target node].
        if data.len() < 2 {
            return;
        }
        if let Ok((command, target)) = decode_command(&[data[0], data[1]]) {
            if target.raw() == 0 || target.raw() == self.node_id.raw() {
                self.nmt.apply(command);
            }
        }
    }

    fn on_sdo(&mut self, data: &[u8]) -> (r: Option<TxFrame>)
        requires
            old(self).wf(),
        ensures
            final(self).wf(),
            final(self)@ == old(self)@.after_sdo(data@).0,
            transmits(r, old(self)@.after_sdo(data@).1),
    {
        // SDO is inactive outside pre-operational / operational (CiA 301 §7.3).
        if !matches!(self.nmt.state(), NmtState::PreOperational | NmtState::Operational) {
            return None;
        }
        if data.len() > 8 {
            return None;
        }
        let payload = pad8(data);
        match self.sdo.handle(&mut self.od, &payload) {
            Some(response) => Some(TxFrame::new(self.sdo.response_cob_id(), &response)),
            None => None,
        }
    }
}

/// Whether a transmission type is SYNC-triggered (as opposed to event-driven).
fn is_synchronous(transmission: TransmissionType) -> (b: bool)
    ensures
        b == transmission.synchronous(),
{
    matches!(
        transmission,
        TransmissionType::SynchronousAcyclic | TransmissionType::SynchronousCyclic(_)
    )
}

// --- Reading PDO parameter objects out of the object dictionary -------------

fn od_u32<const N: usize>(od: &ObjectDictionary<N>, index: u16, sub: u8) -> (r: Option<u32>)
    requires
        od.wf(),
    ensures
        r == u32_at(od@, index, sub),
{
    match od.read(Address::new(index, sub)) {
        Ok(Value::Unsigned32(v)) => Some(v),
        _ => None,
    }
}

fn od_u8<const N: usize>(od: &ObjectDictionary<N>, index: u16, sub: u8) -> (r: Option<u8>)
    requires
        od.wf(),
    ensures
        r == u8_at(od@, index, sub),
{
    match od.read(Address::new(index, sub)) {
        Ok(Value::Unsigned8(v)) => Some(v),
        _ => None,
    }
}

/// Read a mapping-parameter record (`sub 0` = count, `sub 1..=count` = the
/// `0xIIII_SSLL` mapping entries) into a [`PdoMapping`].
fn read_pdo_mapping<const N: usize>(od: &ObjectDictionary<N>, map_index: u16) -> (r: Option<
    PdoMapping<MAX_PDO_MAPPING>,
>)
    requires
        od.wf(),
    ensures
        match mapping_at(od@, map_index) {
            Some(entries) => r matches Some(m) && m@ == entries,
            None => r is None,
        },
{
    let count: u8 = match od_u8(od, map_index, 0) {
        Some(c) => c,
        None => {
            return None;
        },
    };
    let mut mapping: PdoMapping<MAX_PDO_MAPPING> = PdoMapping::new();
    let mut done: u8 = 0;
    while done < count
        invariant
            done <= count,
            od.wf(),
            u8_at(od@, map_index, 0) == Some(count),
            mapping@.len() == done <= MAX_PDO_MAPPING,
            forall|sub: u8| 1 <= sub <= done ==> #[trigger] u32_at(od@, map_index, sub) is Some,
            forall|i: int|
                0 <= i < done ==> #[trigger] mapping@[i] == MappingEntry::of_packed(
                    u32_at(od@, map_index, (i + 1) as u8)->0,
                ),
        decreases count - done,
    {
        let sub: u8 = done + 1;
        match od_u32(od, map_index, sub) {
            Some(value) => {
                if mapping.push(MappingEntry::from_u32(value)).is_err() {
                    return None;
                }
            },
            None => {
                assert(u32_at(od@, map_index, sub) is None);
                return None;
            },
        }
        done = sub;
    }
    proof {
        let entries = Seq::new(
            count as nat,
            |i: int| MappingEntry::of_packed(u32_at(od@, map_index, (i + 1) as u8)->0),
        );
        assert(mapping@ =~= entries);
    }
    Some(mapping)
}

fn build_rpdo<const N: usize>(od: &ObjectDictionary<N>, n: u16) -> (r: Option<RpdoSlot>)
    requires
        od.wf(),
        n < MAX_PDOS,
    ensures
        match rpdo_at(od@, n as int) {
            Some(rpdo) => r matches Some(slot) && slot.model() == rpdo,
            None => r is None,
        },
{
    let cob_id: u32 = match od_u32(od, 0x1400 + n, 1) {
        Some(c) => c,
        None => {
            return None;
        },
    };
    if !pdo_is_valid(cob_id) {
        return None;
    }
    match read_pdo_mapping(od, 0x1600 + n) {
        Some(mapping) => Some(RpdoSlot { cob_id: pdo_can_id(cob_id), mapping }),
        None => None,
    }
}

fn build_tpdo<const N: usize>(od: &ObjectDictionary<N>, n: u16) -> (r: Option<TpdoSlot>)
    requires
        od.wf(),
        n < MAX_PDOS,
    ensures
        match tpdo_at(od@, n as int) {
            Some(tpdo) => r matches Some(slot) && slot.model() == tpdo,
            None => r is None,
        },
{
    let cob_id: u32 = match od_u32(od, 0x1800 + n, 1) {
        Some(c) => c,
        None => {
            return None;
        },
    };
    if !pdo_is_valid(cob_id) {
        return None;
    }
    // Transmission type (comm sub 2); default to event-driven if absent/invalid.
    let transmission = match od_u8(od, 0x1800 + n, 2) {
        Some(b) => match TransmissionType::from_byte(b) {
            Ok(t) => t,
            Err(_) => TransmissionType::EventDrivenProfile,
        },
        None => TransmissionType::EventDrivenProfile,
    };
    match read_pdo_mapping(od, 0x1A00 + n) {
        Some(mapping) => Some(TpdoSlot { cob_id: pdo_can_id(cob_id), mapping, transmission }),
        None => None,
    }
}

} // verus!
