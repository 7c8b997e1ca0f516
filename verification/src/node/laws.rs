//! What a node guarantees of the traffic it serves and the errors it reports.
use vstd::prelude::*;

use crate::datatypes::{DataType, Value};
use crate::emcy::{EmergencyMessage, ErrorRegister};
use crate::frame::{padded, Frame};
use crate::little_endian::two_bytes;
use crate::lss::{
    command_u8, LssState, CS_CONFIGURE_NODE_ID, LSS_MASTER_COB_ID, LSS_SLAVE_COB_ID,
};
use crate::nmt::{command_frame, next_state, NmtCommand, NmtState, NMT_COMMAND_COB_ID};
use crate::node::{
    configured_rpdos, configured_tpdos, mapping_at, rpdo_at, rpdo_for, set_if_present, sync_frames,
    tpdo_at, u32_at, u8_at, with_codes, NodeState, Rpdo, SyncProducer, MAX_ERROR_HISTORY,
};
use crate::object_dictionary::{Address, Objects};
use crate::pdo::{compatible, lemma_pack_unpack, maps, pack_of, unpack_of, MappingEntry};
use crate::sdo::server::ServerState;
use crate::sdo::SDO_REQUEST_COB_BASE;
use crate::types::Error;

verus! {

/// While a node has no node-id it serves LSS and nothing else: every other frame
/// is ignored, without a trace and without an answer.
pub proof fn law_unconfigured_serves_only_lss(n: NodeState, cob_id: u16, data: Seq<u8>)
    requires
        n.unconfigured(),
        cob_id != LSS_MASTER_COB_ID,
    ensures
        n.after_frame(cob_id, data) == (n, None::<Frame>),
{
}

/// A node-id assigned over LSS becomes the node's on its reset: the master is
/// told that it was accepted, the node-id in use until then does not change,
/// and from the reset on the node is configured and its SDO server answers for
/// the new node-id. Its dictionary, its PDOs and its errors stay as they were.
pub proof fn law_lss_assigns_the_node_id(n: NodeState, id: u8)
    requires
        1 <= id <= 127,
        n.lss matches Some(l) && l.state == LssState::Configuration,
    ensures
        ({
            let (configured, answer) = n.after_frame(
                LSS_MASTER_COB_ID,
                command_u8(CS_CONFIGURE_NODE_ID, id),
            );
            let after = configured.with_assigned_id();
            &&& answer == Some(
                Frame { cob_id: LSS_SLAVE_COB_ID, data: command_u8(CS_CONFIGURE_NODE_ID, 0) },
            )
            &&& configured == (NodeState { lss: configured.lss, ..n })
            &&& configured.lss matches Some(l) && l.node_id == n.lss->0.node_id
            &&& !after.unconfigured()
            &&& after == (NodeState {
                node_id: id,
                sdo: ServerState::fresh(id),
                lss: after.lss,
                ..n
            })
        }),
{
    let frame = command_u8(CS_CONFIGURE_NODE_ID, id);
    assert(padded(frame) =~= frame);
}

/// SDO requests are served in pre-operational and operational only.
pub proof fn law_sdo_needs_preoperational(n: NodeState, data: Seq<u8>)
    requires
        n.wf(),
        n.nmt == NmtState::Initialising || n.nmt == NmtState::Stopped,
    ensures
        n.after_frame((SDO_REQUEST_COB_BASE + n.node_id) as u16, data) == (n, None::<Frame>),
{
}

/// Process data is exchanged in the operational state only: in any other state
/// no frame writes a mapped object, and a SYNC triggers nothing.
pub proof fn law_pdo_needs_operational(n: NodeState, cob_id: u16, data: Seq<u8>)
    requires
        n.nmt != NmtState::Operational,
        cob_id != LSS_MASTER_COB_ID,
        cob_id != NMT_COMMAND_COB_ID,
        cob_id != SDO_REQUEST_COB_BASE + n.node_id,
    ensures
        n.after_frame(cob_id, data) == (n, None::<Frame>),
        n.on_sync() == Seq::<Frame>::empty(),
{
}

/// A frame that is not for the node is ignored.
pub proof fn law_unrelated_frames_are_ignored(n: NodeState, cob_id: u16, data: Seq<u8>)
    requires
        cob_id != LSS_MASTER_COB_ID,
        cob_id != NMT_COMMAND_COB_ID,
        cob_id != SDO_REQUEST_COB_BASE + n.node_id,
        rpdo_for(n.rpdos, cob_id) is None,
    ensures
        n.after_frame(cob_id, data) == (n, None::<Frame>),
{
}

/// The first receive PDO on a COB-ID is the one that listens.
proof fn lemma_rpdo_for(rpdos: Seq<Rpdo>, cob_id: u16, k: int)
    requires
        0 <= k < rpdos.len(),
        rpdos[k].cob_id == cob_id,
        forall|i: int| 0 <= i < k ==> (#[trigger] rpdos[i]).cob_id != cob_id,
    ensures
        rpdo_for(rpdos, cob_id) == Some(rpdos[k]),
    decreases rpdos.len(),
{
    if k > 0 {
        let rest = rpdos.drop_first();
        assert(rpdos[0].cob_id != cob_id);
        assert forall|i: int| 0 <= i < k - 1 implies (#[trigger] rest[i]).cob_id != cob_id by {
            assert(rest[i] == rpdos[i + 1]);
        }
        lemma_rpdo_for(rest, cob_id, k - 1);
    }
}

/// Process data reaches the objects that its own PDO maps. When an operational
/// node, whatever its other PDOs, gets a frame on the COB-ID of its `k`-th receive
/// PDO — the first with that COB-ID, and none that is reserved — and the data begins
/// with what was packed from the objects of a sender that maps the same objects,
/// every object that this PDO maps has the sender's value afterwards. Every other object, and
/// everything else about the node, is as it was, and the node does not answer.
pub proof fn law_received_process_data_reaches_its_objects(
    n: NodeState,
    k: int,
    from: Objects,
    packed: Seq<u8>,
    data: Seq<u8>,
)
    requires
        n.nmt == NmtState::Operational,
        !n.unconfigured(),
        0 <= k < n.rpdos.len(),
        forall|i: int| 0 <= i < k ==> (#[trigger] n.rpdos[i]).cob_id != n.rpdos[k].cob_id,
        n.rpdos[k].cob_id != 0x7E5,
        n.rpdos[k].cob_id != 0,
        n.rpdos[k].cob_id != 0x600 + n.node_id,
        compatible(n.rpdos[k].entries, from, n.objects),
        pack_of(n.rpdos[k].entries, from, 8) == Ok::<Seq<u8>, Error>(packed),
        packed.len() <= data.len(),
        forall|i: int| 0 <= i < packed.len() ==> #[trigger] data[i] == packed[i],
    ensures
        ({
            let entries = n.rpdos[k].entries;
            let (after, answer) = n.after_frame(n.rpdos[k].cob_id, data);
            &&& answer is None
            &&& after == (NodeState { objects: after.objects, ..n })
            &&& after.objects.dom() == n.objects.dom()
            &&& forall|i: int| #![trigger entries[i]]
                0 <= i < entries.len() ==> {
                    let a = Address { index: entries[i].index, subindex: entries[i].subindex };
                    &&& after.objects[a].value == from[a].value
                    &&& after.objects[a].access == n.objects[a].access
                }
            &&& forall|a: Address| #![trigger after.objects[a]]
                n.objects.dom().contains(a) && (forall|i: int|
                    0 <= i < entries.len() ==> (#[trigger] entries[i]).index != a.index
                        || entries[i].subindex != a.subindex) ==> after.objects[a] == n.objects[a]
        }),
{
    let entries = n.rpdos[k].entries;
    let cob_id = n.rpdos[k].cob_id;
    lemma_rpdo_for(n.rpdos, cob_id, k);
    assert(data.subrange(0, packed.len() as int) =~= packed);
    lemma_pack_unpack(entries, from, n.objects, 8, data);
    let after = n.after_frame(cob_id, data).0;
    assert(after.objects == unpack_of(entries, n.objects, data).0);
    assert forall|i: int| #![trigger entries[i]] 0 <= i < entries.len() implies {
        let a = Address { index: entries[i].index, subindex: entries[i].subindex };
        &&& after.objects[a].value == from[a].value
        &&& after.objects[a].access == n.objects[a].access
    } by {
        let a = Address { index: entries[i].index, subindex: entries[i].subindex };
        assert(entries[i].address() == a);
        assert(maps(entries, a));
        assert(after.objects[a] == after.objects[a]);
    }
}

/// A node-control command applies to the node it addresses, and to all when it
/// addresses none; a command for another node changes nothing.
pub proof fn law_nmt_addressing(n: NodeState, command: NmtCommand, target: u8)
    requires
        !n.unconfigured(),
    ensures
        n.after_frame(NMT_COMMAND_COB_ID, command_frame(command, target)) == (
            if target == 0 || target == n.node_id {
                NodeState { nmt: next_state(n.nmt, command), ..n }
            } else {
                n
            },
            None::<Frame>,
        ),
{
    crate::nmt::law_command_frame_round_trip(command, target);
}

/// The error history is most-recent-first and bounded: an emergency puts its
/// code in front, keeps the others in order, and drops the oldest once full.
pub proof fn law_error_history(n: NodeState, code: u16, register: u8)
    requires
        n.wf(),
    ensures
        ({
            let after = n.after_emergency(code, register).error_history;
            &&& after.len() == if n.error_history.len() < MAX_ERROR_HISTORY {
                n.error_history.len() + 1
            } else {
                MAX_ERROR_HISTORY as nat
            }
            &&& after[0] == code
            &&& forall|i: int| 1 <= i < after.len() ==> after[i] == n.error_history[i - 1]
        }),
{
}

/// An emergency sets the bits it names and the generic bit, clears none, and sets
/// no other; a clear resets register and history.
pub proof fn law_error_register(n: NodeState, code: u16, register: u8)
    ensures
        ({
            let after = n.after_emergency(code, register).error_register;
            &&& after & register == register
            &&& after & ErrorRegister::GENERIC == ErrorRegister::GENERIC
            &&& after & n.error_register == n.error_register
            &&& after & !(register | ErrorRegister::GENERIC | n.error_register) == 0
            &&& ErrorRegister::GENERIC == 1
        }),
        n.after_clear().error_register == 0,
        n.after_clear().error_history.len() == 0,
{
    let before = n.error_register;
    let generic = ErrorRegister::GENERIC;
    let after = before | (register | generic);
    assert(after & register == register && after & generic == generic && after & before == before
        && after & !(register | generic | before) == 0) by (bit_vector)
        requires
            after == before | (register | generic),
    ;
}

/// Whether there is an object of the given type at an address.
pub open spec fn has(objects: Objects, index: u16, subindex: u8, data_type: DataType) -> bool {
    let a = Address { index, subindex };
    objects.dom().contains(a) && objects[a].value.spec_data_type() == data_type
}

/// The value at an address.
pub open spec fn value_at(objects: Objects, index: u16, subindex: u8) -> Value {
    objects[Address { index, subindex }].value
}

/// Recording codes touches the error field alone, and no object's type.
proof fn lemma_with_codes(objects: Objects, codes: Seq<u32>, n: nat)
    requires
        n <= codes.len() <= MAX_ERROR_HISTORY,
    ensures
        ({
            let after = with_codes(objects, codes, n);
            &&& after.dom() == objects.dom()
            &&& forall|a: Address| #![trigger after[a]]
                objects.dom().contains(a) ==> {
                    &&& after[a].access == objects[a].access
                    &&& after[a].value.spec_data_type() == objects[a].value.spec_data_type()
                    &&& !(a.index == 0x1003 && 1 <= a.subindex <= n) ==> after[a] == objects[a]
                }
            &&& forall|k: int|
                1 <= k <= n && has(objects, 0x1003, k as u8, DataType::Unsigned32)
                    ==> #[trigger] value_at(after, 0x1003, k as u8) == Value::Unsigned32(
                    codes[k - 1],
                )
        }),
    decreases n,
{
    if n > 0 {
        let m = (n - 1) as nat;
        lemma_with_codes(objects, codes, m);
        let before = with_codes(objects, codes, m);
        let after = with_codes(objects, codes, n);
        let a = Address { index: 0x1003, subindex: n as u8 };
        assert(after.dom() =~= objects.dom());
        assert forall|k: int|
            1 <= k <= n && has(objects, 0x1003, k as u8, DataType::Unsigned32) implies #[trigger] value_at(
            after,
            0x1003,
            k as u8,
        ) == Value::Unsigned32(codes[k - 1]) by {
            if k < n {
                assert(value_at(before, 0x1003, k as u8) == Value::Unsigned32(codes[k - 1]));
                assert(Address { index: 0x1003, subindex: k as u8 } != a);
            } else {
                assert(before[a].value.spec_data_type() == DataType::Unsigned32);
            }
        }
    }
}

/// A node's dictionary shows its errors: after an emergency, and after a clear,
/// the objects `0x1001`, `0x1003` sub 0 and `0x1003` sub 1, 2, … hold the error
/// register, the number of recorded codes and the codes, wherever they exist
/// with their types. Every other object keeps its value.
pub proof fn law_errors_are_mirrored(n: NodeState)
    requires
        n.wf(),
    ensures
        ({
            let o = n.objects;
            let after = n.mirrored().objects;
            &&& has(o, 0x1001, 0, DataType::Unsigned8) ==> value_at(after, 0x1001, 0)
                == Value::Unsigned8(n.error_register)
            &&& has(o, 0x1003, 0, DataType::Unsigned8) ==> value_at(after, 0x1003, 0)
                == Value::Unsigned8(n.error_history.len() as u8)
            &&& forall|k: int|
                1 <= k <= n.error_history.len() && has(o, 0x1003, k as u8, DataType::Unsigned32)
                    ==> #[trigger] value_at(after, 0x1003, k as u8) == Value::Unsigned32(
                    n.error_history[k - 1],
                )
            &&& after.dom() == o.dom()
            &&& forall|a: Address| #![trigger after[a]]
                o.dom().contains(a) && a.index != 0x1001 && a.index != 0x1003 ==> after[a] == o[a]
        }),
{
    let o = n.objects;
    let a = Address { index: 0x1001, subindex: 0 };
    let b = Address { index: 0x1003, subindex: 0 };
    let one = set_if_present(o, a, Value::Unsigned8(n.error_register));
    let two = set_if_present(one, b, Value::Unsigned8(n.error_history.len() as u8));
    assert(one.dom() =~= o.dom());
    assert(two.dom() =~= o.dom());
    lemma_with_codes(two, n.error_history, n.error_history.len());
    let after = n.mirrored().objects;
    assert(after == with_codes(two, n.error_history, n.error_history.len()));
    if has(o, 0x1001, 0, DataType::Unsigned8) {
        assert(after[a] == two[a]);
    }
    if has(o, 0x1003, 0, DataType::Unsigned8) {
        assert(after[b] == two[b]);
    }
    assert forall|k: int|
        1 <= k <= n.error_history.len() && has(o, 0x1003, k as u8, DataType::Unsigned32) implies #[trigger] value_at(
        after,
        0x1003,
        k as u8,
    ) == Value::Unsigned32(n.error_history[k - 1]) by {
        let c = Address { index: 0x1003, subindex: k as u8 };
        assert(two[c] == o[c]);
        assert(has(two, 0x1003, k as u8, DataType::Unsigned32));
    }
}

// --- What the node sends ---------------------------------------------------

/// Boot-up, heartbeat and node guarding go out on `0x700` plus the node-id, one
/// byte each: zero at boot-up, the state in a heartbeat, and the state with a bit 7
/// that alternates in node guarding, from clear on after the boot.
pub proof fn law_error_control(n: NodeState)
    requires
        n.wf(),
    ensures
        ({
            let state: int = match n.nmt {
                NmtState::Initialising => 0,
                NmtState::Stopped => 4,
                NmtState::Operational => 5,
                NmtState::PreOperational => 127,
            };
            let beat = n.error_control(n.nmt.wire());
            let (once, first) = n.after_guard();
            let (twice, second) = once.after_guard();
            &&& n.error_control(0).data == seq![0u8]
            &&& n.error_control(0).cob_id == 0x700 + n.node_id
            &&& beat.cob_id == 0x700 + n.node_id
            &&& beat.data.len() == 1 && beat.data[0] == state
            &&& first.cob_id == 0x700 + n.node_id && second.cob_id == 0x700 + n.node_id
            &&& first.data.len() == 1 && second.data.len() == 1
            &&& first.data[0] == if n.guard_toggle {
                128 + state
            } else {
                state
            }
            &&& second.data[0] == if n.guard_toggle {
                state
            } else {
                128 + state
            }
            &&& twice == n
            &&& once == (NodeState { guard_toggle: !n.guard_toggle, ..n })
            &&& n.after_boot() == (NodeState {
                nmt: if n.nmt == NmtState::Initialising {
                    NmtState::PreOperational
                } else {
                    n.nmt
                },
                guard_toggle: false,
                ..n
            })
        }),
{
}

/// An emergency goes out on `0x80` plus the node-id: its code in bytes 0 and 1,
/// least significant first, the error register with the generic bit in byte 2, and
/// the five bytes of the manufacturer behind it.
pub proof fn law_emergencies_are_reported(n: NodeState, code: u16, register: u8, info: [u8; 5])
    requires
        n.wf(),
    ensures
        ({
            let after = n.after_emergency(code, register);
            let f = after.emergency_frame(code, info);
            &&& f.cob_id == 0x80 + n.node_id
            &&& f.data.len() == 8
            &&& two_bytes(f.data[0], f.data[1]) == code
            &&& f.data[2] == after.error_register
            &&& f.data.subrange(3, 8) == info@
            &&& after == (NodeState {
                objects: after.objects,
                error_register: after.error_register,
                error_history: after.error_history,
                ..n
            })
            &&& n.after_clear() == (NodeState {
                objects: n.after_clear().objects,
                error_register: 0,
                error_history: Seq::empty(),
                ..n
            })
        }),
{
    let after = n.after_emergency(code, register);
    let m = EmergencyMessage {
        error_code: code,
        error_register: ErrorRegister(after.error_register),
        vendor_specific: info,
    };
    crate::emcy::law_layout(m);
    let e = after.emergency_frame(code, info).data;
    assert(e == m.encoding());
    assert forall|i: int| 0 <= i < 5 implies e.subrange(3, 8)[i] == info@[i] by {
        assert(e[3 + i] == m.vendor_specific@[i]);
    }
    assert(e.subrange(3, 8) =~= info@);
}

/// A SYNC goes out on `0x80`, where the node produces it: empty, or with a count
/// that goes up by one from 1 to the overflow value and then starts again at 1.
pub proof fn law_sync_is_produced(n: NodeState)
    ensures
        match n.sync_producer {
            None => n.after_sync() == (n, None::<Frame>),
            Some(p) => {
                let (after, f) = n.after_sync();
                &&& f matches Some(f) && f.cob_id == 0x80
                &&& p.overflow < 2 ==> f->0.data.len() == 0 && after == n
                &&& p.overflow >= 2 ==> {
                    let count = f->0.data[0];
                    &&& f->0.data.len() == 1
                    &&& p.count < p.overflow ==> count == p.count + 1
                    &&& p.count >= p.overflow ==> count == 1
                    &&& after == (NodeState {
                        sync_producer: Some(SyncProducer { overflow: p.overflow, count }),
                        ..n
                    })
                }
            },
        },
{
}

/// Whether transmit PDO `k` can be sent: it maps at least one object, and they can
/// be packed.
pub open spec fn sendable(n: NodeState, k: int) -> bool {
    n.tpdos[k].entries.len() > 0 && pack_of(n.tpdos[k].entries, n.objects, 8) is Ok
}

/// Whether transmit PDO `k` is sent on a SYNC: it can be sent, and its transmission
/// type is one of 0 to 240.
pub open spec fn sent_on_sync(n: NodeState, k: int) -> bool {
    sendable(n, k) && n.tpdos[k].transmission.byte() <= 240
}

/// How many of the first `k` transmit PDOs are sent on a SYNC.
pub open spec fn sent_before(n: NodeState, k: int) -> int
    decreases k,
{
    if k <= 0 {
        0
    } else {
        sent_before(n, k - 1) + if sent_on_sync(n, k - 1) {
            1int
        } else {
            0
        }
    }
}

/// An operational node sends its process data on a SYNC: of each transmit PDO that
/// is triggered by it and can be packed, its own frame, with its own COB-ID and the
/// data packed from its own objects, in the order of the PDOs, and nothing else. On
/// demand it sends the frame of the PDO asked for, whatever its trigger.
pub proof fn law_process_data_is_sent(n: NodeState, k: int)
    requires
        n.nmt == NmtState::Operational,
        0 <= k < n.tpdos.len(),
        forall|i: int| #![trigger n.tpdos[i]]
            0 <= i < n.tpdos.len() && n.tpdos[i].transmission is SynchronousCyclic
                ==> n.tpdos[i].transmission.byte() <= 240,
    ensures
        n.on_sync().len() == sent_before(n, n.tpdos.len() as int),
        sent_on_sync(n, k) ==> {
            &&& 0 <= sent_before(n, k) < n.on_sync().len()
            &&& n.on_sync()[sent_before(n, k)].cob_id == n.tpdos[k].cob_id
            &&& Ok::<Seq<u8>, Error>(n.on_sync()[sent_before(n, k)].data) == pack_of(
                n.tpdos[k].entries,
                n.objects,
                8,
            )
        },
        sendable(n, k) ==> {
            &&& n.on_demand(k) matches Some(f) && f.cob_id == n.tpdos[k].cob_id && Ok::<
                Seq<u8>,
                Error,
            >(f.data) == pack_of(n.tpdos[k].entries, n.objects, 8)
        },
        !sendable(n, k) ==> n.on_demand(k) is None,
        n.on_demand(n.tpdos.len() as int) is None,
{
    lemma_sync_frames(n, n.tpdos.len() as int, k);
    assert(n.tpdos.take(n.tpdos.len() as int) =~= n.tpdos);
}

proof fn lemma_sync_frames(n: NodeState, m: int, k: int)
    requires
        0 <= m <= n.tpdos.len(),
        forall|i: int| #![trigger n.tpdos[i]]
            0 <= i < n.tpdos.len() && n.tpdos[i].transmission is SynchronousCyclic
                ==> n.tpdos[i].transmission.byte() <= 240,
    ensures
        ({
            let frames = sync_frames(n.tpdos.take(m), n.objects);
            &&& 0 <= sent_before(n, m)
            &&& frames.len() == sent_before(n, m)
            &&& 0 <= k < m && sent_on_sync(n, k) ==> {
                &&& 0 <= sent_before(n, k) < frames.len()
                &&& frames[sent_before(n, k)].cob_id == n.tpdos[k].cob_id
                &&& Ok::<Seq<u8>, Error>(frames[sent_before(n, k)].data) == pack_of(
                    n.tpdos[k].entries,
                    n.objects,
                    8,
                )
            }
        }),
    decreases m,
{
    if m > 0 {
        lemma_sync_frames(n, m - 1, k);
        let upto = n.tpdos.take(m);
        assert(upto.drop_last() =~= n.tpdos.take(m - 1));
        assert(upto.last() == n.tpdos[m - 1]);
        let t = n.tpdos[m - 1].transmission;
        assert(t.synchronous() <==> t.byte() <= 240);
    }
}

// --- Configuration ---------------------------------------------------------

/// Whether an object can be read and holds the given number of 32 bits.
pub open spec fn reads_u32(objects: Objects, index: int, subindex: int, x: int) -> bool {
    let a = Address { index: index as u16, subindex: subindex as u8 };
    &&& objects.dom().contains(a)
    &&& objects[a].access.readable()
    &&& objects[a].value matches Value::Unsigned32(v) && v == x
}

/// Whether an object can be read and holds the given number of eight bits.
pub open spec fn reads_u8(objects: Objects, index: int, subindex: int, x: int) -> bool {
    let a = Address { index: index as u16, subindex: subindex as u8 };
    &&& objects.dom().contains(a)
    &&& objects[a].access.readable()
    &&& objects[a].value matches Value::Unsigned8(v) && v == x
}

/// Whether the mapping parameter at `index` lists the objects of `entries`.
pub open spec fn lists(objects: Objects, index: int, entries: Seq<MappingEntry>) -> bool {
    &&& entries.len() <= 8
    &&& reads_u8(objects, index, 0, entries.len() as int)
    &&& forall|i: int| #![trigger entries[i]]
        0 <= i < entries.len() ==> reads_u32(
            objects,
            index,
            i + 1,
            0x1_0000 * entries[i].index + 0x100 * entries[i].subindex + entries[i].bits,
        )
}

proof fn lemma_lists(objects: Objects, index: u16, entries: Seq<MappingEntry>)
    requires
        lists(objects, index as int, entries),
    ensures
        mapping_at(objects, index) == Some(entries),
{
    let n = entries.len();
    assert(u8_at(objects, index, 0) == Some(n as u8));
    assert forall|sub: u8| 1 <= sub <= n as u8 implies #[trigger] u32_at(objects, index, sub)
        is Some by {
        let e = entries[sub - 1];
        assert(reads_u32(
            objects,
            index as int,
            sub as int,
            0x1_0000 * e.index + 0x100 * e.subindex + e.bits,
        ));
    }
    let read = mapping_at(objects, index)->0;
    assert forall|i: int| 0 <= i < n implies read[i] == entries[i] by {
        let e = entries[i];
        assert(reads_u32(
            objects,
            index as int,
            i + 1,
            0x1_0000 * e.index + 0x100 * e.subindex + e.bits,
        ));
        crate::pdo::laws::law_mapping_parameters(e);
    }
    assert(read =~= entries);
}

/// Where the parameter objects `0x1400 + k` sub 1 and `0x1600 + k` describe a
/// receive PDO — its COB-ID with bit 31 clear, and the list of its objects — the
/// configuration has that PDO: the low eleven bits of the COB-ID, and exactly those
/// objects. With bit 31 set, or without a COB-ID or a list, there is none.
pub proof fn law_receive_parameters(
    objects: Objects,
    k: int,
    cob_id: u32,
    entries: Seq<MappingEntry>,
)
    requires
        0 <= k < 4,
    ensures
        reads_u32(objects, 0x1400 + k, 1, cob_id as int) && lists(objects, 0x1600 + k, entries) ==> (
        if cob_id < 0x8000_0000 {
            rpdo_at(objects, k) matches Some(p) && p.cob_id == cob_id % 0x800 && p.entries
                == entries
        } else {
            rpdo_at(objects, k) is None
        }),
        (forall|x: u32| !#[trigger] reads_u32(objects, 0x1400 + k, 1, x as int)) ==> rpdo_at(
            objects,
            k,
        ) is None,
        (forall|x: u8|
            x <= 8 ==> !#[trigger] reads_u8(objects, 0x1600 + k, 0, x as int)) ==> rpdo_at(
            objects,
            k,
        ) is None,
{
    let index = (0x1400 + k) as u16;
    let map = (0x1600 + k) as u16;
    if reads_u32(objects, 0x1400 + k, 1, cob_id as int) && lists(objects, 0x1600 + k, entries) {
        lemma_lists(objects, map, entries);
        assert(u32_at(objects, index, 1) == Some(cob_id));
    }
    if let Some(x) = u32_at(objects, index, 1) {
        assert(reads_u32(objects, 0x1400 + k, 1, x as int));
    }
    if let Some(x) = u8_at(objects, map, 0) {
        assert(reads_u8(objects, 0x1600 + k, 0, x as int));
    }
}

/// Where the parameter objects `0x1800 + k` sub 1 and 2 and `0x1A00 + k` describe a
/// transmit PDO — its COB-ID with bit 31 clear, its transmission type, and the list
/// of its objects — the configuration has that PDO: the low eleven bits of the
/// COB-ID, that type, and exactly those objects. Without a type, or with a reserved
/// one, it is event-driven. With bit 31 set, or without a COB-ID or a list, there is
/// none.
pub proof fn law_transmit_parameters(
    objects: Objects,
    k: int,
    cob_id: u32,
    kind: u8,
    entries: Seq<MappingEntry>,
)
    requires
        0 <= k < 4,
    ensures
        reads_u32(objects, 0x1800 + k, 1, cob_id as int) && lists(objects, 0x1A00 + k, entries) ==> (
        if cob_id < 0x8000_0000 {
            tpdo_at(objects, k) matches Some(p) && p.cob_id == cob_id % 0x800 && p.entries
                == entries && (reads_u8(objects, 0x1800 + k, 2, kind as int) ==> p.transmission.byte()
                == if 241 <= kind <= 251 {
                255
            } else {
                kind
            })
        } else {
            tpdo_at(objects, k) is None
        }),
        (forall|x: u8| !#[trigger] reads_u8(objects, 0x1800 + k, 2, x as int)) ==> (tpdo_at(
            objects,
            k,
        ) matches Some(p) ==> p.transmission.byte() == 255),
        (forall|x: u32| !#[trigger] reads_u32(objects, 0x1800 + k, 1, x as int)) ==> tpdo_at(
            objects,
            k,
        ) is None,
        (forall|x: u8|
            x <= 8 ==> !#[trigger] reads_u8(objects, 0x1A00 + k, 0, x as int)) ==> tpdo_at(
            objects,
            k,
        ) is None,
{
    let index = (0x1800 + k) as u16;
    let map = (0x1A00 + k) as u16;
    if reads_u32(objects, 0x1800 + k, 1, cob_id as int) && lists(objects, 0x1A00 + k, entries) {
        lemma_lists(objects, map, entries);
        assert(u32_at(objects, index, 1) == Some(cob_id));
    }
    if let Some(x) = u32_at(objects, index, 1) {
        assert(reads_u32(objects, 0x1800 + k, 1, x as int));
    }
    if let Some(x) = u8_at(objects, map, 0) {
        assert(reads_u8(objects, 0x1A00 + k, 0, x as int));
    }
    if let Some(x) = u8_at(objects, index, 2) {
        assert(reads_u8(objects, 0x1800 + k, 2, x as int));
    }
    if reads_u8(objects, 0x1800 + k, 2, kind as int) {
        assert(u8_at(objects, index, 2) == Some(kind));
    }
}

/// How many of the first `k` receive PDOs the parameter objects describe.
pub open spec fn receive_before(objects: Objects, k: int) -> int
    decreases k,
{
    if k <= 0 {
        0
    } else {
        receive_before(objects, k - 1) + if rpdo_at(objects, k - 1) is Some {
            1int
        } else {
            0
        }
    }
}

/// How many of the first `k` transmit PDOs the parameter objects describe.
pub open spec fn transmit_before(objects: Objects, k: int) -> int
    decreases k,
{
    if k <= 0 {
        0
    } else {
        transmit_before(objects, k - 1) + if tpdo_at(objects, k - 1) is Some {
            1int
        } else {
            0
        }
    }
}

/// A configuration from the dictionary has the PDOs that the parameter objects of
/// the four receive and the four transmit PDOs describe, in their order, and no
/// others; whatever was configured before is gone, and nothing else changes.
pub proof fn law_configuration(n: NodeState, k: int)
    requires
        0 <= k < 4,
    ensures
        ({
            let after = n.reconfigured();
            let o = n.objects;
            &&& after == (NodeState { rpdos: after.rpdos, tpdos: after.tpdos, ..n })
            &&& after.rpdos.len() == receive_before(o, 4)
            &&& after.tpdos.len() == transmit_before(o, 4)
            &&& rpdo_at(o, k) matches Some(p) ==> 0 <= receive_before(o, k) < after.rpdos.len()
                && after.rpdos[receive_before(o, k)] == p
            &&& tpdo_at(o, k) matches Some(p) ==> 0 <= transmit_before(o, k) < after.tpdos.len()
                && after.tpdos[transmit_before(o, k)] == p
        }),
{
    lemma_configured(n.objects, 4, k);
}

proof fn lemma_configured(o: Objects, m: int, k: int)
    requires
        0 <= m,
    ensures
        ({
            let rpdos = configured_rpdos(o, m as nat);
            let tpdos = configured_tpdos(o, m as nat);
            &&& 0 <= receive_before(o, m) == rpdos.len()
            &&& 0 <= transmit_before(o, m) == tpdos.len()
            &&& 0 <= k < m && rpdo_at(o, k) is Some ==> 0 <= receive_before(o, k) < rpdos.len()
                && Some(rpdos[receive_before(o, k)]) == rpdo_at(o, k)
            &&& 0 <= k < m && tpdo_at(o, k) is Some ==> 0 <= transmit_before(o, k) < tpdos.len()
                && Some(tpdos[transmit_before(o, k)]) == tpdo_at(o, k)
        }),
    decreases m,
{
    if m > 0 {
        lemma_configured(o, m - 1, k);
    }
}

// --- What the node serves --------------------------------------------------

/// An SDO request comes in on `0x600` plus the node-id and is answered on `0x580`
/// plus the node-id; what is answered, and what becomes of the dictionary, is the
/// SDO server's. An LSS request comes in on `0x7E5` and is answered on `0x7E4`. A
/// request of fewer than eight bytes counts as filled up with zeros, and a longer
/// one is ignored. No other frame is answered.
pub proof fn law_channels(n: NodeState, cob_id: u16, data: Seq<u8>, full: Seq<u8>)
    requires
        n.wf(),
        full.len() == 8,
        forall|i: int|
            0 <= i < 8 ==> #[trigger] full[i] == if i < data.len() {
                data[i]
            } else {
                0
            },
    ensures
        ({
            let (after, answer) = n.after_frame(cob_id, data);
            let served = n.sdo.serve(n.objects, full);
            &&& answer matches Some(f) ==> (cob_id == 0x7E5 && f.cob_id == 0x7E4) || (cob_id
                == 0x600 + n.node_id && f.cob_id == 0x580 + n.node_id)
            &&& data.len() > 8 && (cob_id == 0x7E5 || cob_id == 0x600 + n.node_id) ==> after == n
                && answer is None
            &&& data.len() <= 8 && cob_id == 0x600 + n.node_id && !n.unconfigured() && (n.nmt
                == NmtState::Operational || n.nmt == NmtState::PreOperational) ==> {
                &&& after == (NodeState { sdo: served.state, objects: served.objects, ..n })
                &&& served.response is Some <==> answer is Some
                &&& answer matches Some(f) ==> served.response == Some(f.data)
            }
            &&& data.len() <= 8 && cob_id == 0x7E5 ==> match n.lss {
                Some(slave) => {
                    &&& after == (NodeState { lss: Some(slave.handle(full).0), ..n })
                    &&& slave.handle(full).1 is Some <==> answer is Some
                    &&& answer matches Some(f) ==> slave.handle(full).1 == Some(f.data)
                },
                None => after == n && answer is None,
            }
            &&& cob_id == 0 && !n.unconfigured() ==> after == (NodeState { nmt: after.nmt, ..n })
        }),
{
    if data.len() <= 8 {
        assert(padded(data) =~= full);
    }
}

/// A node-control frame, by its bytes: `1` starts, `2` stops, `0x80` leads to
/// pre-operational, `0x81` and `0x82` reset; it is for the node when byte 1 is 0 or
/// the node-id, and otherwise changes nothing. A node that initialises obeys only
/// the resets. A frame of fewer than two bytes is ignored, and what stands behind
/// the two does not matter.
pub proof fn law_node_control(n: NodeState, data: Seq<u8>)
    requires
        !n.unconfigured(),
    ensures
        ({
            let after = n.after_frame(0, data).0;
            let command = data[0];
            let obeys = data.len() >= 2 && (data[1] == 0 || data[1] == n.node_id) && n.nmt
                != NmtState::Initialising;
            let known = command == 1 || command == 2 || command == 0x80 || command == 0x81
                || command == 0x82;
            &&& after == (NodeState { nmt: after.nmt, ..n })
            &&& obeys && command == 1 ==> after.nmt == NmtState::Operational
            &&& obeys && command == 2 ==> after.nmt == NmtState::Stopped
            &&& obeys && command == 0x80 ==> after.nmt == NmtState::PreOperational
            &&& obeys && (command == 0x81 || command == 0x82) ==> after.nmt
                == NmtState::Initialising
            &&& !obeys || !known ==> after.nmt == n.nmt
        }),
{
}

/// A fresh node initialises, with the dictionary and the node-id given, and has
/// nothing else: no PDO, no error, no LSS, no SYNC to produce, no transfer.
pub proof fn law_fresh_node(node_id: u8, objects: Objects)
    ensures
        ({
            let n = NodeState::fresh(node_id, objects);
            &&& n.node_id == node_id && n.objects == objects && n.nmt == NmtState::Initialising
            &&& n.rpdos.len() == 0 && n.tpdos.len() == 0 && n.error_history.len() == 0
            &&& n.error_register == 0 && !n.guard_toggle
            &&& n.lss is None && n.sync_producer is None
            &&& n.sdo.node == node_id && n.sdo.transfer is None && n.sdo.written is None
        }),
{
}

/// A node is unconfigured when it has LSS and the LSS node-id is 255. On its reset
/// a pending node-id from 1 to 127 becomes the node's, and any other changes
/// nothing; setting one directly starts a new SDO server for it.
pub proof fn law_node_ids(n: NodeState, id: u8)
    ensures
        n.unconfigured() <==> (n.lss matches Some(l) && l.node_id == 255),
        match n.lss {
            Some(l) => if 1 <= l.pending_node_id <= 127 {
                let after = n.with_assigned_id();
                &&& after.node_id == l.pending_node_id && after.sdo == ServerState::fresh(
                    l.pending_node_id,
                )
                &&& after.lss matches Some(m)
                &&& m.node_id == l.pending_node_id && m.address == l.address && m.state == l.state
                &&& after == (NodeState {
                    node_id: after.node_id,
                    sdo: after.sdo,
                    lss: after.lss,
                    ..n
                })
            } else {
                n.with_assigned_id() == n
            },
            None => n.with_assigned_id() == n,
        },
        n.with_node_id(id) == (NodeState { node_id: id, sdo: ServerState::fresh(id), ..n }),
{
}

/// After an emergency the dictionary shows the errors as they then are, and after a
/// clear that there are none: the register at `0x1001`, the number of codes at
/// `0x1003` sub 0, and the codes behind it, most recent first, wherever these
/// objects exist with their types. No other object changes, and no access rights.
pub proof fn law_dictionary_shows_the_errors(n: NodeState, code: u16, register: u8)
    requires
        n.wf(),
    ensures
        ({
            let o = n.objects;
            let after = n.after_emergency(code, register);
            let clear = n.after_clear();
            &&& has(o, 0x1001, 0, DataType::Unsigned8) ==> value_at(after.objects, 0x1001, 0)
                == Value::Unsigned8(after.error_register) && value_at(clear.objects, 0x1001, 0)
                == Value::Unsigned8(0)
            &&& has(o, 0x1003, 0, DataType::Unsigned8) ==> value_at(after.objects, 0x1003, 0)
                == Value::Unsigned8(after.error_history.len() as u8) && value_at(
                clear.objects,
                0x1003,
                0,
            ) == Value::Unsigned8(0)
            &&& has(o, 0x1003, 1, DataType::Unsigned32) ==> value_at(after.objects, 0x1003, 1)
                == Value::Unsigned32(code as u32)
            &&& forall|k: int|
                1 <= k <= after.error_history.len() && has(
                    o,
                    0x1003,
                    k as u8,
                    DataType::Unsigned32,
                ) ==> #[trigger] value_at(after.objects, 0x1003, k as u8) == Value::Unsigned32(
                    after.error_history[k - 1],
                )
            &&& after.objects.dom() == o.dom() && clear.objects.dom() == o.dom()
            &&& forall|a: Address| #![trigger after.objects[a]]
                o.dom().contains(a) && a.index != 0x1001 && a.index != 0x1003 ==> after.objects[a]
                    == o[a]
            &&& forall|a: Address| #![trigger clear.objects[a]]
                o.dom().contains(a) && a.index != 0x1001 && a.index != 0x1003 ==> clear.objects[a]
                    == o[a]
        }),
{
    let raised = NodeState {
        error_register: n.error_register | (register | ErrorRegister::GENERIC),
        error_history: n.recorded(code),
        ..n
    };
    let cleared = NodeState { error_register: 0, error_history: Seq::empty(), ..n };
    law_error_history(n, code, register);
    law_errors_are_mirrored(raised);
    law_errors_are_mirrored(cleared);
    let after = n.after_emergency(code, register);
    assert(after.objects == raised.mirrored().objects);
    assert(after.error_history == raised.error_history);
    assert(n.after_clear().objects == cleared.mirrored().objects);
    if has(n.objects, 0x1003, 1, DataType::Unsigned32) {
        assert(value_at(raised.mirrored().objects, 0x1003, 1u8) == Value::Unsigned32(
            raised.error_history[1 - 1],
        )) by {
            let k = 1int;
            assert(value_at(raised.mirrored().objects, 0x1003, k as u8) == Value::Unsigned32(
                raised.error_history[k - 1],
            ));
        }
    }
}

} // verus!
