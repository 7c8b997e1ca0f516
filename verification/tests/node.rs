//! The device node.
use canopen_rs::nmt::{self, NmtState};
use canopen_rs::node::{Node, MAX_ERROR_HISTORY, MAX_PDOS, MAX_PDO_MAPPING};

use canopen_rs::emcy::{self, EmergencyMessage, ErrorRegister};
use canopen_rs::lss::{
    self, encode_configure_node_id, encode_switch_global, FastscanMaster, LssAddress, LssState,
};
use canopen_rs::sdo::{
    decode_upload_expedited_response, encode_download_expedited, encode_upload_request,
};
use canopen_rs::sync;
use canopen_rs::{
    Address, DataType, Entry, Error, MappingEntry, NmtCommand, NodeId, ObjectDictionary,
    PdoMapping, TransmissionType, Value,
};

fn start<const N: usize>(n: &mut Node<N>) {
    n.on_frame(
        nmt::NMT_COMMAND_COB_ID,
        &[NmtCommand::StartRemoteNode.to_byte(), 0x10],
    );
}

fn od() -> ObjectDictionary<8> {
    let mut od = ObjectDictionary::new();
    od.insert(
        Address::new(0x1000, 0),
        Entry::constant(Value::Unsigned32(0x192)),
    )
    .unwrap();
    od.insert(Address::new(0x1017, 0), Entry::rw(Value::Unsigned16(1000)))
        .unwrap();
    od
}

fn node() -> Node<8> {
    Node::new(NodeId::new(0x10).unwrap(), od())
}

#[test]
fn boots_from_init_to_preop_and_announces() {
    let mut n = node();
    assert_eq!(n.state(), NmtState::Initialising);
    let boot = n.boot();
    assert_eq!(n.state(), NmtState::PreOperational);
    assert_eq!(boot.cob_id, 0x710); // 0x700 + node
    assert_eq!(boot.data(), &[0x00]);
}

#[test]
fn heartbeat_reflects_state() {
    let mut n = node();
    n.boot();
    assert_eq!(n.heartbeat().data(), &[0x7F]); // pre-operational
    n.on_frame(
        nmt::NMT_COMMAND_COB_ID,
        &[NmtCommand::StartRemoteNode.to_byte(), 0x10],
    );
    assert_eq!(n.state(), NmtState::Operational);
    assert_eq!(n.heartbeat().data(), &[0x05]); // operational
}

#[test]
fn node_guard_response_toggles() {
    let mut n = node();
    n.boot();
    start(&mut n); // operational (0x05)
    let first = n.node_guard_response();
    assert_eq!(first.cob_id, 0x710); // 0x700 + node
    assert_eq!(first.data(), &[0x05]); // toggle clear
    assert_eq!(n.node_guard_response().data(), &[0x85]); // toggle set
    assert_eq!(n.node_guard_response().data(), &[0x05]); // toggles back
}

#[test]
fn serves_sdo_read_when_preoperational() {
    let mut n = node();
    n.boot();
    let req = encode_upload_request(Address::new(0x1000, 0));
    let resp = n.on_frame(0x610, &req).expect("SDO response");
    assert_eq!(resp.cob_id, 0x590); // 0x580 + node
    let (_, value) = decode_upload_expedited_response(
        resp.data().try_into().unwrap(),
        DataType::Unsigned32,
    )
    .unwrap();
    assert_eq!(value, Value::Unsigned32(0x192));
}

#[test]
fn ignores_sdo_before_boot() {
    let mut n = node(); // still Initialising
    let req = encode_upload_request(Address::new(0x1000, 0));
    assert!(n.on_frame(0x610, &req).is_none());
}

#[test]
fn ignores_sdo_when_stopped() {
    let mut n = node();
    n.boot();
    n.on_frame(
        nmt::NMT_COMMAND_COB_ID,
        &[NmtCommand::StopRemoteNode.to_byte(), 0x10],
    );
    assert_eq!(n.state(), NmtState::Stopped);
    let req = encode_upload_request(Address::new(0x1000, 0));
    assert!(n.on_frame(0x610, &req).is_none());
}

#[test]
fn nmt_command_for_other_node_is_ignored() {
    let mut n = node();
    n.boot();
    // Start addressed to node 0x20, not us.
    n.on_frame(
        nmt::NMT_COMMAND_COB_ID,
        &[NmtCommand::StartRemoteNode.to_byte(), 0x20],
    );
    assert_eq!(n.state(), NmtState::PreOperational); // unchanged
}

#[test]
fn broadcast_nmt_applies() {
    let mut n = node();
    n.boot();
    n.on_frame(
        nmt::NMT_COMMAND_COB_ID,
        &[NmtCommand::StartRemoteNode.to_byte(), 0x00],
    );
    assert_eq!(n.state(), NmtState::Operational);
}

#[test]
fn serves_sdo_write_and_updates_od() {
    let mut n = node();
    n.boot();
    let req =
        encode_download_expedited(Address::new(0x1017, 0), &Value::Unsigned16(1234)).unwrap();
    assert!(n.on_frame(0x610, &req).is_some());
    assert_eq!(
        n.od().read(Address::new(0x1017, 0)).unwrap(),
        Value::Unsigned16(1234)
    );
}

#[test]
fn ignores_unrelated_cob_id() {
    let mut n = node();
    n.boot();
    assert!(n.on_frame(0x123, &[0; 8]).is_none());
}

// --- PDO ---------------------------------------------------------------
fn pdo_od() -> ObjectDictionary<8> {
    let mut od = ObjectDictionary::new();
    // TPDO source objects (readable) and an RPDO target (writable).
    od.insert(
        Address::new(0x6000, 1),
        Entry::rw(Value::Unsigned16(0xBEEF)),
    )
    .unwrap();
    od.insert(Address::new(0x6000, 2), Entry::rw(Value::Unsigned8(0x42)))
        .unwrap();
    od.insert(Address::new(0x6200, 1), Entry::rw(Value::Unsigned16(0)))
        .unwrap();
    od
}

fn mapping(entries: &[(u16, u8, u8)]) -> PdoMapping<MAX_PDO_MAPPING> {
    let mut m = PdoMapping::new();
    for &(index, sub, bits) in entries {
        m.push(MappingEntry::new(index, sub, bits)).unwrap();
    }
    m
}

#[test]
fn tpdo_transmits_only_when_operational() {
    let mut n = Node::new(NodeId::new(0x10).unwrap(), pdo_od());
    n.add_tpdo(
        0x18A,
        mapping(&[(0x6000, 1, 16), (0x6000, 2, 8)]),
        TransmissionType::SynchronousAcyclic,
    )
    .unwrap();
    n.boot();

    // Pre-operational: no PDO traffic.
    assert!(n.sync_tpdos().is_empty());

    start(&mut n);
    let frames = n.sync_tpdos();
    assert_eq!(frames.len(), 1);
    assert_eq!(frames[0].cob_id, 0x18A);
    // U16 0xBEEF little-endian then U8 0x42.
    assert_eq!(frames[0].data(), &[0xEF, 0xBE, 0x42]);
}

#[test]
fn event_tpdo_by_index() {
    let mut n = Node::new(NodeId::new(0x10).unwrap(), pdo_od());
    // Event-driven type is not emitted by sync_tpdos, only by tpdo().
    n.add_tpdo(
        0x18A,
        mapping(&[(0x6000, 2, 8)]),
        TransmissionType::EventDrivenProfile,
    )
    .unwrap();
    n.boot();
    start(&mut n);
    assert!(n.sync_tpdos().is_empty());
    assert_eq!(n.tpdo(0).unwrap().data(), &[0x42]);
    assert!(n.tpdo(1).is_none());
}

#[test]
fn rpdo_applies_only_when_operational() {
    let mut n = Node::new(NodeId::new(0x10).unwrap(), pdo_od());
    n.add_rpdo(0x20A, mapping(&[(0x6200, 1, 16)])).unwrap();
    n.boot();

    // Pre-operational: the RPDO is ignored.
    assert!(n.on_frame(0x20A, &[0x34, 0x12]).is_none());
    assert_eq!(
        n.od().read(Address::new(0x6200, 1)).unwrap(),
        Value::Unsigned16(0)
    );

    // Operational: the frame is unpacked into the object dictionary.
    start(&mut n);
    n.on_frame(0x20A, &[0x34, 0x12]);
    assert_eq!(
        n.od().read(Address::new(0x6200, 1)).unwrap(),
        Value::Unsigned16(0x1234)
    );
}

#[test]
fn pdo_capacity_is_enforced() {
    let mut n = Node::new(NodeId::new(0x10).unwrap(), pdo_od());
    for _ in 0..MAX_PDOS {
        n.add_tpdo(
            0x18A,
            mapping(&[(0x6000, 2, 8)]),
            TransmissionType::SynchronousAcyclic,
        )
        .unwrap();
    }
    assert_eq!(
        n.add_tpdo(
            0x18A,
            mapping(&[(0x6000, 2, 8)]),
            TransmissionType::SynchronousAcyclic
        ),
        Err(Error::MappingFull)
    );
}

// --- LSS ---------------------------------------------------------------

fn lss_address() -> LssAddress {
    LssAddress {
        vendor_id: 0x1F,
        product_code: 0x2A,
        revision_number: 1,
        serial_number: 0x99,
    }
}

#[test]
fn routes_lss_frames_when_enabled() {
    let mut n = node();
    n.enable_lss(lss_address());
    // Switch into configuration via LSS (COB-ID 0x7E5), no response.
    assert!(n
        .on_frame(lss::LSS_MASTER_COB_ID, &encode_switch_global(true))
        .is_none());
    assert_eq!(n.lss().unwrap().state(), LssState::Configuration);
}

#[test]
fn lss_frames_ignored_when_disabled() {
    let mut n = node(); // LSS not enabled
    assert!(n
        .on_frame(lss::LSS_MASTER_COB_ID, &encode_switch_global(true))
        .is_none());
    assert!(n.lss().is_none());
}

#[test]
fn lss_assigns_node_id_and_moves_sdo_cob_id() {
    // A node that comes up unconfigured: leave it in Initialising and serve
    // only LSS until a master assigns an id.
    let mut n = Node::new(NodeId::new(1).unwrap(), od());
    n.enable_lss(lss_address());
    assert_eq!(n.node_id(), NodeId::new(1).unwrap());

    // Master: switch to configuration, then assign node-id 0x20.
    n.on_frame(lss::LSS_MASTER_COB_ID, &encode_switch_global(true));
    let resp = n
        .on_frame(lss::LSS_MASTER_COB_ID, &encode_configure_node_id(0x20))
        .expect("configure response");
    assert_eq!(resp.cob_id, lss::LSS_SLAVE_COB_ID);
    assert_eq!(&resp.data()[..2], &[0x11, 0x00]); // configure success

    // On the node's reset, adopt the assigned id — SDO COB-ID moves.
    assert_eq!(n.apply_lss_node_id(), Some(NodeId::new(0x20).unwrap()));
    assert_eq!(n.node_id(), NodeId::new(0x20).unwrap());

    n.boot();
    let req = encode_upload_request(Address::new(0x1000, 0));
    assert!(n.on_frame(0x601, &req).is_none()); // old COB-ID no longer served
    assert!(n.on_frame(0x620, &req).is_some()); // new COB-ID (0x600 + 0x20)
}

#[test]
fn unconfigured_node_serves_only_lss() {
    let mut n = Node::new(NodeId::new(1).unwrap(), od());
    n.enable_lss_unconfigured(lss_address());
    n.boot(); // even booted, an unconfigured node serves no data traffic

    // The placeholder id's SDO COB-ID is not served while unconfigured.
    let req = encode_upload_request(Address::new(0x1000, 0));
    assert!(n.on_frame(0x601, &req).is_none());

    // ...but LSS still is.
    n.on_frame(lss::LSS_MASTER_COB_ID, &encode_switch_global(true));
    assert_eq!(n.lss().unwrap().state(), LssState::Configuration);
}

#[test]
fn fastscan_discovers_then_configures_node_via_on_frame() {
    let addr = lss_address();
    let mut n = Node::new(NodeId::new(1).unwrap(), od());
    n.enable_lss_unconfigured(addr);

    // The master discovers the unknown address purely through on_frame.
    let mut master = FastscanMaster::new();
    let mut steps = 0;
    while let Some(req) = master.next_request() {
        let answered = n.on_frame(lss::LSS_MASTER_COB_ID, &req).is_some();
        master.on_response(answered);
        steps += 1;
        assert!(steps < 200, "fastscan did not converge");
    }
    assert!(master.found());
    assert_eq!(master.address(), addr);
    assert_eq!(n.lss().unwrap().state(), LssState::Configuration);

    // Assign an id; the node then serves SDO on the new COB-ID.
    n.on_frame(lss::LSS_MASTER_COB_ID, &encode_configure_node_id(0x33));
    assert_eq!(n.apply_lss_node_id(), Some(NodeId::new(0x33).unwrap()));
    n.boot();
    let req = encode_upload_request(Address::new(0x1000, 0));
    assert!(n.on_frame(0x600 + 0x33, &req).is_some());
}

// --- PDO configuration from the object dictionary ----------------------
#[test]
fn configures_pdos_from_od() {
    let mut od = ObjectDictionary::<16>::new();
    // RPDO1: comm 0x1400 (COB-ID 0x210, valid), mapping 0x1600 -> 0x6200/1.
    od.insert(Address::new(0x1400, 1), Entry::rw(Value::Unsigned32(0x210)))
        .unwrap();
    od.insert(Address::new(0x1600, 0), Entry::rw(Value::Unsigned8(1)))
        .unwrap();
    od.insert(
        Address::new(0x1600, 1),
        Entry::rw(Value::Unsigned32(MappingEntry::new(0x6200, 1, 16).to_u32())),
    )
    .unwrap();
    // TPDO1: comm 0x1800 (COB-ID 0x190, valid, sync-cyclic), mapping -> 0x6000/1.
    od.insert(Address::new(0x1800, 1), Entry::rw(Value::Unsigned32(0x190)))
        .unwrap();
    od.insert(Address::new(0x1800, 2), Entry::rw(Value::Unsigned8(1)))
        .unwrap(); // transmission type 1
    od.insert(Address::new(0x1A00, 0), Entry::rw(Value::Unsigned8(1)))
        .unwrap();
    od.insert(
        Address::new(0x1A00, 1),
        Entry::rw(Value::Unsigned32(MappingEntry::new(0x6000, 1, 16).to_u32())),
    )
    .unwrap();
    // The mapped process-data objects.
    od.insert(Address::new(0x6200, 1), Entry::rw(Value::Unsigned16(0)))
        .unwrap();
    od.insert(
        Address::new(0x6000, 1),
        Entry::rw(Value::Unsigned16(0xBEEF)),
    )
    .unwrap();

    let mut n = Node::new(NodeId::new(0x10).unwrap(), od);
    n.configure_pdos_from_od();
    n.boot();
    start(&mut n);

    // The RPDO now applies to the OD…
    n.on_frame(0x210, &[0x34, 0x12]);
    assert_eq!(
        n.od().read(Address::new(0x6200, 1)).unwrap(),
        Value::Unsigned16(0x1234)
    );
    // …and the (synchronous) TPDO is emitted on SYNC.
    let tpdos = n.sync_tpdos();
    assert_eq!(tpdos.len(), 1);
    assert_eq!(tpdos[0].cob_id, 0x190);
    assert_eq!(tpdos[0].data(), &[0xEF, 0xBE]);
}

#[test]
fn skips_pdo_with_invalid_cob_id() {
    let mut od = ObjectDictionary::<8>::new();
    // TPDO1 with the COB-ID validity bit (31) set — disabled.
    od.insert(
        Address::new(0x1800, 1),
        Entry::rw(Value::Unsigned32(0x8000_0190)),
    )
    .unwrap();
    od.insert(Address::new(0x1800, 2), Entry::rw(Value::Unsigned8(1)))
        .unwrap();
    od.insert(Address::new(0x1A00, 0), Entry::rw(Value::Unsigned8(1)))
        .unwrap();
    od.insert(
        Address::new(0x1A00, 1),
        Entry::rw(Value::Unsigned32(MappingEntry::new(0x6000, 1, 16).to_u32())),
    )
    .unwrap();
    od.insert(
        Address::new(0x6000, 1),
        Entry::rw(Value::Unsigned16(0xBEEF)),
    )
    .unwrap();

    let mut n = Node::new(NodeId::new(0x10).unwrap(), od);
    n.configure_pdos_from_od();
    n.boot();
    start(&mut n);
    assert!(n.sync_tpdos().is_empty()); // the invalid TPDO was not configured
}

#[test]
fn reacts_to_a_pdo_parameter_write() {
    // TPDO1 params present but initially disabled (COB-ID invalid bit set).
    let mut od = ObjectDictionary::<16>::new();
    od.insert(
        Address::new(0x1800, 1),
        Entry::rw(Value::Unsigned32(0x8000_0190)),
    )
    .unwrap();
    od.insert(Address::new(0x1800, 2), Entry::rw(Value::Unsigned8(1)))
        .unwrap();
    od.insert(Address::new(0x1A00, 0), Entry::rw(Value::Unsigned8(1)))
        .unwrap();
    od.insert(
        Address::new(0x1A00, 1),
        Entry::rw(Value::Unsigned32(MappingEntry::new(0x6000, 1, 16).to_u32())),
    )
    .unwrap();
    od.insert(
        Address::new(0x6000, 1),
        Entry::rw(Value::Unsigned16(0xBEEF)),
    )
    .unwrap();

    let mut n = Node::new(NodeId::new(0x10).unwrap(), od);
    n.configure_pdos_from_od();
    n.boot();
    start(&mut n);
    assert!(n.sync_tpdos().is_empty());

    // A master enables the TPDO by writing a valid COB-ID to 0x1800/1.
    let req =
        encode_download_expedited(Address::new(0x1800, 1), &Value::Unsigned32(0x190)).unwrap();
    n.on_frame(0x610, &req);

    // The node notices the PDO-parameter write and reconfigures.
    let written = n.take_written_object().expect("a write was recorded");
    assert_eq!(written, Address::new(0x1800, 1));
    assert_eq!(n.take_written_object(), None); // reported once
    if (0x1400..=0x1BFF).contains(&written.index) {
        n.configure_pdos_from_od();
    }

    // The TPDO is now active.
    let tpdos = n.sync_tpdos();
    assert_eq!(tpdos.len(), 1);
    assert_eq!(tpdos[0].cob_id, 0x190);
}

// --- Emergencies (EMCY + error register / pre-defined error field) ------
fn od_with_error_objects() -> ObjectDictionary<8> {
    let mut od = ObjectDictionary::new();
    od.insert(Address::new(0x1001, 0), Entry::ro(Value::Unsigned8(0)))
        .unwrap();
    od.insert(Address::new(0x1003, 0), Entry::ro(Value::Unsigned8(0)))
        .unwrap();
    od.insert(Address::new(0x1003, 1), Entry::ro(Value::Unsigned32(0)))
        .unwrap();
    od.insert(Address::new(0x1003, 2), Entry::ro(Value::Unsigned32(0)))
        .unwrap();
    od
}

#[test]
fn emergency_sets_register_and_emits_frame() {
    let mut n = node();
    let tx = n.raise_emergency(
        emcy::error_code::VOLTAGE,
        ErrorRegister(ErrorRegister::VOLTAGE),
        [0xAA, 0xBB, 0xCC, 0xDD, 0xEE],
    );
    // The generic bit is set alongside the class bit.
    assert_eq!(
        n.error_register(),
        ErrorRegister(ErrorRegister::GENERIC | ErrorRegister::VOLTAGE)
    );
    assert_eq!(tx.cob_id, 0x090); // 0x080 + node 0x10
    let msg = EmergencyMessage::decode(tx.data()).unwrap();
    assert_eq!(msg.error_code, emcy::error_code::VOLTAGE);
    assert_eq!(
        msg.error_register.0,
        ErrorRegister::GENERIC | ErrorRegister::VOLTAGE
    );
    assert_eq!(msg.vendor_specific, [0xAA, 0xBB, 0xCC, 0xDD, 0xEE]);
    assert_eq!(n.error_history(), &[u32::from(emcy::error_code::VOLTAGE)]);
}

#[test]
fn error_history_is_most_recent_first_and_bounded() {
    let mut n = node();
    let total = MAX_ERROR_HISTORY as u16 + 2;
    for i in 0..total {
        n.raise_emergency(0x1000 + i, ErrorRegister::none(), [0; 5]);
    }
    assert_eq!(n.error_history().len(), MAX_ERROR_HISTORY);
    assert_eq!(n.error_history()[0], u32::from(0x1000 + total - 1)); // newest first
    let oldest_kept = 0x1000 + total - MAX_ERROR_HISTORY as u16;
    assert_eq!(*n.error_history().last().unwrap(), u32::from(oldest_kept));
}

#[test]
fn emergency_mirrors_into_object_dictionary() {
    let mut n = Node::new(NodeId::new(0x10).unwrap(), od_with_error_objects());
    n.raise_emergency(0x5530, ErrorRegister(ErrorRegister::DEVICE_PROFILE), [0; 5]);

    assert_eq!(
        n.od().read(Address::new(0x1001, 0)).unwrap(),
        Value::Unsigned8(ErrorRegister::GENERIC | ErrorRegister::DEVICE_PROFILE)
    );
    assert_eq!(
        n.od().read(Address::new(0x1003, 0)).unwrap(),
        Value::Unsigned8(1)
    );
    assert_eq!(
        n.od().read(Address::new(0x1003, 1)).unwrap(),
        Value::Unsigned32(0x5530)
    );
}

#[test]
fn clear_errors_resets_register_history_and_od() {
    let mut n = Node::new(NodeId::new(0x10).unwrap(), od_with_error_objects());
    n.raise_emergency(
        0x3210,
        ErrorRegister(ErrorRegister::VOLTAGE),
        [1, 2, 3, 4, 5],
    );

    let tx = n.clear_errors();
    assert_eq!(n.error_register(), ErrorRegister::none());
    assert!(n.error_history().is_empty());
    let msg = EmergencyMessage::decode(tx.data()).unwrap();
    assert!(msg.is_error_reset());
    assert_eq!(tx.cob_id, 0x090);
    assert_eq!(
        n.od().read(Address::new(0x1001, 0)).unwrap(),
        Value::Unsigned8(0)
    );
    assert_eq!(
        n.od().read(Address::new(0x1003, 0)).unwrap(),
        Value::Unsigned8(0)
    );
}

#[test]
fn emergency_without_error_objects_still_works() {
    // node()'s OD has no 0x1001/0x1003 — mirroring is best-effort and must
    // neither panic nor suppress the frame.
    let mut n = node();
    let tx = n.raise_emergency(0x8130, ErrorRegister(ErrorRegister::COMMUNICATION), [0; 5]);
    assert_eq!(tx.cob_id, 0x090);
    assert_eq!(
        n.error_register(),
        ErrorRegister(ErrorRegister::GENERIC | ErrorRegister::COMMUNICATION)
    );
}

// --- SYNC producer -----------------------------------------------------
#[test]
fn sync_production_is_off_by_default() {
    let mut n = node();
    assert!(n.produce_sync().is_none());
}

#[test]
fn counterless_sync_producer_emits_empty_frames() {
    let mut n = node();
    n.enable_sync_producer(0).unwrap();
    let tx = n.produce_sync().expect("a SYNC frame");
    assert_eq!(tx.cob_id, sync::SYNC_COB_ID); // 0x080
    assert_eq!(tx.data(), &[] as &[u8]); // counter-less
}

#[test]
fn counting_sync_producer_cycles_and_wraps() {
    let mut n = node();
    n.enable_sync_producer(3).unwrap();
    let counts: [&[u8]; 4] = [&[1], &[2], &[3], &[1]];
    for expected in counts {
        let tx = n.produce_sync().unwrap();
        assert_eq!(tx.cob_id, sync::SYNC_COB_ID);
        assert_eq!(tx.data(), expected);
    }
}

#[test]
fn enable_sync_producer_rejects_reserved_overflow() {
    let mut n = node();
    assert_eq!(n.enable_sync_producer(1), Err(Error::InvalidSyncCounter));
    assert!(n.produce_sync().is_none()); // still not a producer
}
