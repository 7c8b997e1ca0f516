use canopen_rs::emcy::emcy_cob_id;
use canopen_rs::host::nmt::HeartbeatMonitor;
use canopen_rs::lss::{
    encode_configure_node_id, encode_inquire_node_id, encode_store, encode_switch_global,
    encode_switch_selective, FastscanMaster, LSS_MASTER_COB_ID, LSS_SLAVE_COB_ID,
    UNCONFIGURED_NODE_ID,
};
use canopen_rs::nmt::{
    decode_command, decode_node_guard, encode_command, encode_heartbeat, encode_node_guard,
};
use canopen_rs::pdo::{pack, unpack};
use canopen_rs::sdo::block::{
    decode_end, decode_sub_segment, encode_sub_segment, BlockReceiver, BlockWriter,
};
use canopen_rs::sdo::{
    decode_abort, decode_data_segment, decode_download_initiate_segmented, encode_abort,
    encode_download_initiate_segmented, SdoAbortCode,
};
use canopen_rs::text::{parse_integer, push_decimal, push_hex};
use canopen_rs::{
    AccessType, Address, ByteString, DataType, EmergencyMessage, Entry, Error, ErrorRegister,
    LssAddress, LssSlave, LssState, MappingEntry, NmtCommand, NmtState, NmtStateMachine, Node,
    NodeId, ObjectDictionary, PdoKind, PdoMapping, SdoClient, SdoEvent, SdoServer, SegmentReader,
    SegmentWriter, StandardObjects, SyncCounter, TimeOfDay, Value,
};

fn node(id: u8) -> NodeId {
    NodeId::new(id).unwrap()
}

fn bytes(n: usize) -> Vec<u8> {
    (0..n).map(|i| (i * 37 + 11) as u8).collect()
}

// --- Values and the dictionary ---------------------------------------------

#[test]
fn encoding_a_decoded_value_gives_its_bytes() {
    let mut buf = [0u8; 32];
    for (data_type, size) in [
        (DataType::Integer8, 1),
        (DataType::Unsigned16, 2),
        (DataType::Integer32, 4),
        (DataType::Real32, 4),
        (DataType::Integer64, 8),
        (DataType::Real64, 8),
        (DataType::VisibleString, 0),
        (DataType::OctetString, 31),
        (DataType::Domain, 32),
    ] {
        let data = bytes(size);
        let value = Value::decode_le(data_type, &data).unwrap();
        let n = value.encode_le(&mut buf).unwrap();
        assert_eq!(&buf[..n], &data[..]);
    }
    // A BOOLEAN is encoded as 0 or 1.
    let value = Value::decode_le(DataType::Boolean, &[2]).unwrap();
    assert_eq!(value, Value::Boolean(true));
    assert_eq!(value.encode_le(&mut buf).unwrap(), 1);
    assert_eq!(buf[0], 1);
}

#[test]
fn only_utf8_reads_as_text() {
    let text = ByteString::from_str("\u{20ac}uro").unwrap();
    assert_eq!(text.as_str(), Some("\u{20ac}uro"));
    assert_eq!(text.as_bytes(), &[0xE2, 0x82, 0xAC, b'u', b'r', b'o']);
    assert_eq!(ByteString::from_bytes(&[0xE2, 0x82]).unwrap().as_str(), None);
    assert!(ByteString::default().is_empty());
}

#[test]
fn a_write_touches_one_object() {
    let mut od = ObjectDictionary::<4>::new();
    let (a, b) = (Address::new(0x2000, 0), Address::new(0x2000, 1));
    od.insert(a, Entry::rw(Value::Unsigned8(1))).unwrap();
    od.insert(b, Entry::ro(Value::Unsigned8(2))).unwrap();
    od.write(a, Value::Unsigned8(7)).unwrap();
    assert_eq!(od.read(a), Ok(Value::Unsigned8(7)));
    assert_eq!(od.read(b), Ok(Value::Unsigned8(2)));
    // A refused write changes nothing.
    assert_eq!(od.write(b, Value::Unsigned8(9)), Err(Error::ReadOnly));
    assert_eq!(od.write(a, Value::Unsigned16(9)), Err(Error::TypeMismatch));
    assert_eq!(od.write(Address::new(1, 1), Value::Unsigned8(0)), Err(Error::ObjectNotFound));
    assert_eq!(od.read(a), Ok(Value::Unsigned8(7)));
    assert_eq!(od.read(b), Ok(Value::Unsigned8(2)));
    // The device side may set what a master may not.
    od.set(b, Value::Unsigned8(3)).unwrap();
    assert_eq!(od.read(b), Ok(Value::Unsigned8(3)));
    assert_eq!(od.entry(b).unwrap().access, AccessType::Ro);
}

#[test]
fn a_full_dictionary_still_replaces() {
    let mut od = ObjectDictionary::<1>::new();
    let a = Address::new(0x2000, 0);
    od.insert(a, Entry::rw(Value::Unsigned8(1))).unwrap();
    assert_eq!(
        od.insert(Address::new(0x2001, 0), Entry::rw(Value::Unsigned8(1))),
        Err(Error::DictionaryFull)
    );
    od.insert(a, Entry::rw(Value::Unsigned16(5))).unwrap();
    assert_eq!(od.read(a), Ok(Value::Unsigned16(5)));
    let wo = Entry { value: Value::Unsigned8(0), access: AccessType::Wo };
    od.insert(a, wo).unwrap();
    assert_eq!(od.read(a), Err(Error::WriteOnly));
}

#[test]
fn the_baseline_keeps_other_objects() {
    let identity = LssAddress {
        vendor_id: 1,
        product_code: 2,
        revision_number: 3,
        serial_number: 4,
    };
    let mut od = ObjectDictionary::<13>::new();
    let own = Address::new(0x2000, 0);
    od.insert(own, Entry::rw(Value::Unsigned8(9))).unwrap();
    let standard = StandardObjects::new(5, identity).with_error_history(2);
    standard.insert_into(&mut od).unwrap();
    assert_eq!(od.read(own), Ok(Value::Unsigned8(9)));
    assert_eq!(od.read(Address::new(0x1018, 4)), Ok(Value::Unsigned32(4)));
    assert_eq!(od.read(Address::new(0x1003, 2)), Ok(Value::Unsigned32(0)));
    // What is overwritten needs no further room.
    standard.insert_into(&mut od).unwrap();
    assert_eq!(od.read(own), Ok(Value::Unsigned8(9)));
    // One object more beside it, and the room is lacking.
    od.insert(Address::new(0x2001, 0), Entry::rw(Value::Unsigned8(1))).unwrap();
    assert_eq!(standard.insert_into(&mut od), Err(Error::DictionaryFull));
}

#[test]
fn the_baseline_needs_room_for_nine_objects() {
    let standard = StandardObjects::new(5, identity(1));
    let mut nine = ObjectDictionary::<9>::new();
    assert_eq!(standard.insert_into(&mut nine), Ok(()));
    let mut eight = ObjectDictionary::<8>::new();
    assert_eq!(standard.insert_into(&mut eight), Err(Error::DictionaryFull));
    // What goes in is there all the same.
    assert_eq!(eight.read(Address::new(0x1018, 4)), Ok(Value::Unsigned32(1)));
    let mut four = ObjectDictionary::<4>::new();
    assert_eq!(standard.insert_into(&mut four), Err(Error::DictionaryFull));
    assert_eq!(four.read(Address::new(0x1018, 0)), Ok(Value::Unsigned8(4)));
    assert_eq!(four.read(Address::new(0x1018, 1)), Err(Error::ObjectNotFound));
    // The name takes a place, and the error field one for its count.
    let full = standard.with_device_name("x").with_error_history(2);
    assert_eq!(full.insert_into(&mut ObjectDictionary::<13>::new()), Ok(()));
    assert_eq!(
        full.insert_into(&mut ObjectDictionary::<12>::new()),
        Err(Error::DictionaryFull)
    );
}

// --- SDO -------------------------------------------------------------------

fn transact<const N: usize>(
    client: &mut SdoClient,
    server: &mut SdoServer,
    od: &mut ObjectDictionary<N>,
    first: [u8; 8],
) -> (SdoEvent, usize) {
    let mut frame = first;
    let mut exchanges = 0;
    loop {
        exchanges += 1;
        let response = server.handle(od, &frame).unwrap();
        match client.on_response(&response) {
            SdoEvent::Send(next) => frame = next,
            event => return (event, exchanges),
        }
    }
}

#[test]
fn a_read_gives_back_what_was_written() {
    let addr = Address::new(0x2000, 3);
    let (mut client, mut server) = (SdoClient::new(node(9)), SdoServer::new(node(9)));
    for n in 0..=32 {
        let value = Value::Domain(ByteString::from_bytes(&bytes(n)).unwrap());
        let mut od = ObjectDictionary::<2>::new();
        od.insert(addr, Entry::rw(Value::Domain(ByteString::new()))).unwrap();
        let request = client.write(addr, value);
        let (event, exchanges) = transact(&mut client, &mut server, &mut od, request);
        assert_eq!(event, SdoEvent::Complete(None));
        assert!(exchanges <= 6);
        assert_eq!(server.take_write(), Some(addr));
        assert_eq!(server.take_write(), None);
        let request = client.read(addr, DataType::Domain);
        let (event, exchanges) = transact(&mut client, &mut server, &mut od, request);
        assert_eq!(event, SdoEvent::Complete(Some(value)));
        assert!(exchanges <= 6);
        assert!(!client.is_busy() && !server.is_busy());
    }
}

#[test]
fn a_refused_write_is_answered_with_its_code() {
    let mut od = ObjectDictionary::<4>::new();
    let (fixed, small) = (Address::new(0x1000, 0), Address::new(0x1017, 0));
    od.insert(fixed, Entry::constant(Value::Unsigned32(1))).unwrap();
    od.insert(small, Entry::rw(Value::Unsigned16(2))).unwrap();
    let (mut client, mut server) = (SdoClient::new(node(1)), SdoServer::new(node(1)));
    for (addr, value, code) in [
        (Address::new(0x9999, 0), Value::Unsigned8(0), SdoAbortCode::ObjectDoesNotExist),
        (fixed, Value::Unsigned32(7), SdoAbortCode::WriteOfReadOnly),
        (small, Value::Unsigned32(7), SdoAbortCode::DataTypeMismatchLengthHigh),
        (small, Value::Unsigned64(7), SdoAbortCode::DataTypeMismatchLengthHigh),
    ] {
        let request = client.write(addr, value);
        let (event, _) = transact(&mut client, &mut server, &mut od, request);
        assert_eq!(event, SdoEvent::Aborted(code.code()));
        assert_eq!(od.read(fixed), Ok(Value::Unsigned32(1)));
        assert_eq!(od.read(small), Ok(Value::Unsigned16(2)));
        assert_eq!(server.take_write(), None);
    }
}

#[test]
fn a_refused_read_is_answered_with_its_code() {
    let mut od = ObjectDictionary::<2>::new();
    let hidden = Address::new(0x2000, 0);
    let entry = Entry { value: Value::Unsigned8(0), access: AccessType::Wo };
    od.insert(hidden, entry).unwrap();
    let (mut client, mut server) = (SdoClient::new(node(1)), SdoServer::new(node(1)));
    for (addr, code) in [
        (hidden, SdoAbortCode::ReadOfWriteOnly),
        (Address::new(0x2001, 0), SdoAbortCode::ObjectDoesNotExist),
    ] {
        let request = client.read(addr, DataType::Unsigned8);
        let (event, _) = transact(&mut client, &mut server, &mut od, request);
        assert_eq!(event, SdoEvent::Aborted(code.code()));
    }
}

#[test]
fn a_read_as_another_length_gives_up() {
    let mut od = ObjectDictionary::<2>::new();
    let addr = Address::new(0x2000, 0);
    od.insert(addr, Entry::rw(Value::Unsigned64(1))).unwrap();
    let (mut client, mut server) = (SdoClient::new(node(1)), SdoServer::new(node(1)));
    let request = client.read(addr, DataType::Unsigned32);
    let (event, _) = transact(&mut client, &mut server, &mut od, request);
    assert_eq!(event, SdoEvent::Aborted(0x0800_0000));
}

#[test]
fn segments_beyond_the_buffer_are_refused() {
    let mut od = ObjectDictionary::<1>::new();
    let addr = Address::new(0x2000, 0);
    od.insert(addr, Entry::rw(Value::Domain(ByteString::new()))).unwrap();
    let mut server = SdoServer::new(node(1));
    server.handle(&mut od, &encode_download_initiate_segmented(addr, 32)).unwrap();
    // Four full segments fit the 32 bytes, a fifth does not.
    for toggle in [false, true, false, true] {
        let command = if toggle { 0x10 } else { 0x00 };
        let response = server.handle(&mut od, &[command, 1, 2, 3, 4, 5, 6, 7]).unwrap();
        assert_eq!(response[0], if toggle { 0x30 } else { 0x20 });
    }
    let response = server.handle(&mut od, &[0x01, 1, 2, 3, 4, 5, 6, 7]).unwrap();
    assert_eq!(decode_abort(&response), Ok((addr, 0x0607_0012)));
    assert!(!server.is_busy());
    assert_eq!(od.read(addr), Ok(Value::Domain(ByteString::new())));
}

#[test]
fn a_number_takes_no_more_than_eight_bytes() {
    let mut od = ObjectDictionary::<1>::new();
    let addr = Address::new(0x2000, 0);
    od.insert(addr, Entry::rw(Value::Unsigned64(5))).unwrap();
    let mut server = SdoServer::new(node(1));
    for last in [0x11, 0x10] {
        server.handle(&mut od, &encode_download_initiate_segmented(addr, 8)).unwrap();
        let response = server.handle(&mut od, &[0x00, 1, 2, 3, 4, 5, 6, 7]).unwrap();
        assert_eq!(response[0], 0x20);
        let response = server.handle(&mut od, &[last, 1, 2, 3, 4, 5, 6, 7]).unwrap();
        assert_eq!(decode_abort(&response), Ok((addr, 0x0607_0012)));
        assert!(!server.is_busy());
    }
    assert_eq!(od.read(addr), Ok(Value::Unsigned64(5)));
    // Nor does the client take more.
    let mut client = SdoClient::new(node(1));
    client.read(addr, DataType::Unsigned64);
    client.on_response(&[0x41, 0x00, 0x20, 0, 21, 0, 0, 0]);
    assert!(matches!(
        client.on_response(&[0x00, 1, 2, 3, 4, 5, 6, 7]),
        SdoEvent::Send(_)
    ));
    assert_eq!(
        client.on_response(&[0x10, 1, 2, 3, 4, 5, 6, 7]),
        SdoEvent::Aborted(0x0800_0000)
    );
    assert!(!client.is_busy());
}

#[test]
fn a_short_transfer_is_refused() {
    let mut od = ObjectDictionary::<1>::new();
    let addr = Address::new(0x2000, 0);
    od.insert(addr, Entry::rw(Value::Unsigned64(5))).unwrap();
    let mut server = SdoServer::new(node(1));
    server.handle(&mut od, &encode_download_initiate_segmented(addr, 8)).unwrap();
    let response = server.handle(&mut od, &[0x01, 1, 2, 3, 4, 5, 6, 7]).unwrap();
    assert_eq!(decode_abort(&response), Ok((addr, 0x0607_0013)));
    // A wrong toggle bit ends a transfer too.
    server.handle(&mut od, &encode_download_initiate_segmented(addr, 8)).unwrap();
    let response = server.handle(&mut od, &[0x10, 1, 2, 3, 4, 5, 6, 7]).unwrap();
    assert_eq!(decode_abort(&response), Ok((addr, 0x0503_0000)));
    // A segment without a transfer is answered as well.
    let response = server.handle(&mut od, &[0x01; 8]).unwrap();
    assert_eq!(decode_abort(&response), Ok((Address::new(0, 0), 0x0504_0001)));
    assert_eq!(od.read(addr), Ok(Value::Unsigned64(5)));
}

#[test]
fn every_request_but_an_abort_is_answered() {
    for command in 0..=255u8 {
        let mut od = ObjectDictionary::<1>::new();
        let mut server = SdoServer::new(node(1));
        let response = server.handle(&mut od, &[command, 0, 0x20, 0, 0, 0, 0, 0]);
        assert_eq!(response.is_none(), command & 0xE0 == 0x80);
    }
}

#[test]
fn initiates_and_aborts_round_trip() {
    let addr = Address::new(0xBEEF, 0x42);
    for size in [0, 5, 0xFFFF_FFFF] {
        let frame = encode_download_initiate_segmented(addr, size);
        assert_eq!(decode_download_initiate_segmented(&frame), Ok((addr, size)));
    }
    let frame = encode_abort(addr, SdoAbortCode::SubIndexDoesNotExist);
    assert_eq!(frame, [0x80, 0xEF, 0xBE, 0x42, 0x11, 0x00, 0x09, 0x06]);
    assert_eq!(decode_abort(&frame), Ok((addr, 0x0609_0011)));
}

#[test]
fn segments_reassemble_to_the_value() {
    for n in 1..=40 {
        let data = bytes(n);
        let mut writer = SegmentWriter::new(&data);
        let mut reader = SegmentReader::<40>::new();
        while let Some(frame) = writer.next_segment() {
            reader.push(&decode_data_segment(&frame).unwrap()).unwrap();
        }
        assert!(writer.is_done() && reader.is_done());
        assert_eq!(reader.data(), &data[..]);
    }
}

#[test]
fn a_block_transfer_delivers_its_data() {
    for n in [1, 6, 7, 8, 49, 50, 63] {
        for sizes in [[1u8, 2, 3], [127, 127, 127], [4, 1, 9]] {
            let data = bytes(n);
            let mut writer = BlockWriter::new(&data, sizes[0]);
            let mut receiver = BlockReceiver::<63>::new();
            let mut block = 0;
            while !writer.is_done() {
                let mut seqno = 0;
                while let Some(frame) = writer.next_segment() {
                    let segment = decode_sub_segment(&frame);
                    seqno += 1;
                    assert_eq!(segment.seqno, seqno);
                    receiver.push(&segment).unwrap();
                }
                assert!(seqno <= sizes[block % 3]);
                block += 1;
                writer.start_sub_block(sizes[block % 3]);
            }
            assert!(receiver.is_done());
            let (unused, crc) = decode_end(&writer.end_frame(true)).unwrap();
            assert_eq!(receiver.finish(unused, crc, true), Ok(&data[..]));
        }
    }
}

#[test]
fn a_damaged_block_is_refused() {
    let mut receiver = BlockReceiver::<7>::new();
    let frame = encode_sub_segment(1, &[1, 2, 3], true).unwrap();
    receiver.push(&decode_sub_segment(&frame)).unwrap();
    assert_eq!(receiver.push(&decode_sub_segment(&frame)), Err(Error::UnexpectedCommand));
    assert_eq!(receiver.finish(8, 0, false), Err(Error::BadLength));
    assert_eq!(receiver.finish(4, 0xFFFF, true), Err(Error::CrcMismatch));
    let mut small = BlockReceiver::<6>::new();
    assert_eq!(small.push(&decode_sub_segment(&frame)), Err(Error::Overflow));
    assert_eq!(encode_sub_segment(0, &[1], true), Err(Error::BadLength));
}

// --- LSS -------------------------------------------------------------------

fn identity(n: u32) -> LssAddress {
    LssAddress {
        vendor_id: 0xFFFF_FFFF,
        product_code: 0,
        revision_number: 0x8000_0001,
        serial_number: n,
    }
}

#[test]
fn fastscan_finds_one_node_of_many() {
    let mut slaves: Vec<LssSlave> = [0xFFFF_FFFF, 3, 2, 0x8000_0000]
        .iter()
        .map(|n| LssSlave::new(identity(*n), UNCONFIGURED_NODE_ID))
        .collect();
    slaves.push(LssSlave::new(identity(1), 0x20)); // configured: takes no part
    let mut master = FastscanMaster::new();
    let mut requests = 0;
    while let Some(request) = master.next_request() {
        let mut answered = false;
        for slave in slaves.iter_mut() {
            answered |= slave.handle(&request).is_some();
        }
        master.on_response(answered);
        requests += 1;
    }
    assert_eq!(requests, 133);
    assert!(master.found() && master.is_complete());
    let found: Vec<LssAddress> = slaves
        .iter()
        .filter(|s| s.state() == LssState::Configuration)
        .map(|s| s.address())
        .collect();
    assert_eq!(found, vec![master.address()]);
    assert_eq!(slaves[4].state(), LssState::Waiting);
}

#[test]
fn fastscan_without_nodes_finds_none() {
    let mut master = FastscanMaster::default();
    assert!(master.next_request().is_some());
    master.on_response(false);
    assert!(master.is_complete() && !master.found());
    assert_eq!(master.next_request(), None);
    // Another silent answer changes nothing.
    master.on_response(false);
    assert!(master.is_complete() && !master.found());
}

#[test]
fn selection_reaches_the_addressed_node_only() {
    let mut this = LssSlave::new(identity(1), 5);
    let mut other = LssSlave::new(identity(2), 6);
    let answers: Vec<bool> = encode_switch_selective(&identity(1))
        .iter()
        .map(|f| {
            assert!(other.handle(f).is_none());
            this.handle(f).is_some()
        })
        .collect();
    assert_eq!(answers, vec![false, false, false, true]);
    assert_eq!(this.state(), LssState::Configuration);
    assert_eq!(other.state(), LssState::Waiting);
}

#[test]
fn waiting_ignores_configuration() {
    let mut slave = LssSlave::new(identity(1), 5);
    for request in [encode_configure_node_id(9), encode_store(), encode_inquire_node_id()] {
        assert!(slave.handle(&request).is_none());
    }
    assert_eq!((slave.node_id(), slave.pending_node_id()), (5, 5));
    slave.handle(&encode_switch_global(true));
    assert_eq!(slave.handle(&encode_configure_node_id(0)).unwrap()[1], 1);
    assert_eq!(slave.handle(&encode_configure_node_id(128)).unwrap()[1], 1);
    assert_eq!(slave.pending_node_id(), 5);
    assert_eq!(slave.handle(&encode_configure_node_id(127)).unwrap()[1], 0);
    assert_eq!((slave.node_id(), slave.pending_node_id()), (5, 127));
    assert_eq!(slave.address(), identity(1));
}

#[test]
fn an_assigned_id_moves_the_sdo_server() {
    let mut od = ObjectDictionary::<2>::new();
    let addr = Address::new(0x1000, 0);
    od.insert(addr, Entry::ro(Value::Unsigned8(7))).unwrap();
    let mut n = Node::new(node(1), od);
    n.enable_lss_unconfigured(identity(1));
    let read = [0x40, 0x00, 0x10, 0, 0, 0, 0, 0];
    // Only LSS is served while there is no node-id.
    assert!(n.on_frame(0x000, &encode_command(NmtCommand::StartRemoteNode, node(1))).is_none());
    assert_eq!(n.state(), NmtState::Initialising);
    assert!(n.on_frame(0x601, &read).is_none());
    n.on_frame(LSS_MASTER_COB_ID, &encode_switch_global(true));
    let answer = n.on_frame(LSS_MASTER_COB_ID, &encode_configure_node_id(0x30)).unwrap();
    assert_eq!(answer.cob_id, LSS_SLAVE_COB_ID);
    assert_eq!(answer.data(), &[0x11, 0, 0, 0, 0, 0, 0, 0]);
    assert_eq!(n.apply_lss_node_id(), Some(node(0x30)));
    assert_eq!(n.boot().cob_id, 0x730);
    assert!(n.on_frame(0x601, &read).is_none());
    let answer = n.on_frame(0x630, &read).unwrap();
    assert_eq!(answer.cob_id, 0x5B0);
    assert_eq!(answer.data(), &[0x4F, 0x00, 0x10, 0x00, 7, 0, 0, 0]);
}

// --- NMT, SYNC, TIME, EMCY -------------------------------------------------

const COMMANDS: [NmtCommand; 5] = [
    NmtCommand::StartRemoteNode,
    NmtCommand::StopRemoteNode,
    NmtCommand::EnterPreOperational,
    NmtCommand::ResetNode,
    NmtCommand::ResetCommunication,
];

#[test]
fn commands_round_trip_and_repeat() {
    for command in COMMANDS {
        let frame = encode_command(command, node(0x22));
        assert_eq!(decode_command(&frame), Ok((command, node(0x22))));
        assert_eq!(NmtCommand::from_byte(command.to_byte()), Ok(command));
        let mut machine = NmtStateMachine::new();
        machine.boot();
        let once = machine.apply(command);
        assert_eq!(machine.apply(command), once);
    }
    assert_eq!(decode_command(&[0x55, 1]), Err(Error::UnexpectedCommand));
    assert_eq!(decode_command(&[0x01, 128]), Err(Error::InvalidNodeId));
}

#[test]
fn error_control_round_trips() {
    for state in [
        NmtState::Initialising,
        NmtState::Stopped,
        NmtState::Operational,
        NmtState::PreOperational,
    ] {
        assert_eq!(NmtState::from_wire(encode_heartbeat(state)[0]), Ok(state));
        for toggle in [false, true] {
            assert_eq!(decode_node_guard(encode_node_guard(state, toggle)), Ok((toggle, state)));
        }
    }
    assert_eq!(NmtState::from_wire(3), Err(Error::UnknownState));
}

#[test]
fn commands_reach_the_node_they_address() {
    let mut n = Node::new(node(7), ObjectDictionary::<1>::new());
    n.boot();
    n.on_frame(0x000, &encode_command(NmtCommand::StartRemoteNode, node(8)));
    assert_eq!(n.state(), NmtState::PreOperational);
    n.on_frame(0x000, &encode_command(NmtCommand::StartRemoteNode, node(7)));
    assert_eq!(n.state(), NmtState::Operational);
    n.on_frame(0x000, &encode_command(NmtCommand::StopRemoteNode, NodeId::broadcast()));
    assert_eq!(n.state(), NmtState::Stopped);
    // Neither SDO nor process data in this state.
    assert!(n.on_frame(0x607, &[0x40, 0, 0x10, 0, 0, 0, 0, 0]).is_none());
    assert!(n.sync_tpdos().is_empty());
}

#[test]
fn guard_answers_alternate() {
    let mut n = Node::new(node(7), ObjectDictionary::<1>::new());
    n.boot();
    let answers: Vec<u8> = (0..4).map(|_| n.node_guard_response().data()[0]).collect();
    assert_eq!(answers, vec![0x7F, 0xFF, 0x7F, 0xFF]);
}

#[test]
fn the_sync_counter_cycles() {
    let mut counter = SyncCounter::new(3).unwrap();
    let counts: Vec<Option<u8>> = (0..7).map(|_| counter.advance()).collect();
    let expected: Vec<Option<u8>> = [1, 2, 3, 1, 2, 3, 1].iter().map(|c| Some(*c)).collect();
    assert_eq!(counts, expected);
    assert!(SyncCounter::new(1).is_err());
    assert!(SyncCounter::new(241).is_err());
    let mut silent = SyncCounter::new(0).unwrap();
    assert!(!silent.is_counting());
    assert_eq!(silent.advance(), None);
}

#[test]
fn times_round_trip() {
    let t = TimeOfDay::new(86_399_999, 0xFFFF);
    assert_eq!(TimeOfDay::decode(&t.encode()), Ok(t));
    let long = TimeOfDay::new(0xF000_0001, 1);
    assert_eq!(long.encode(), [0x01, 0, 0, 0, 1, 0]);
    assert_eq!(TimeOfDay::decode(&[0; 5]), Err(Error::BadLength));
}

#[test]
fn emergencies_round_trip() {
    let m = EmergencyMessage::new(0x8110, ErrorRegister(0x11), [1, 2, 3, 4, 5]);
    assert_eq!(m.encode(), [0x10, 0x81, 0x11, 1, 2, 3, 4, 5]);
    assert_eq!(EmergencyMessage::decode(&m.encode()), Ok(m));
    assert_eq!(EmergencyMessage::decode(&[0; 7]), Err(Error::BadLength));
    assert_eq!(emcy_cob_id(node(1)), 0x081);
    assert_eq!(emcy_cob_id(node(127)), 0x0FF);
}

#[test]
fn the_error_history_is_bounded() {
    let mut od = ObjectDictionary::<13>::new();
    StandardObjects::new(0, identity(0)).with_error_history(3).insert_into(&mut od).unwrap();
    let mut n = Node::new(node(1), od);
    for code in 1..=10u16 {
        n.raise_emergency(code, ErrorRegister(ErrorRegister::VOLTAGE), [0; 5]);
    }
    assert_eq!(n.error_history(), &[10, 9, 8, 7, 6, 5, 4, 3]);
    assert_eq!(n.error_register(), ErrorRegister(0x05));
    // What the dictionary has room for shows the same.
    assert_eq!(n.od().read(Address::new(0x1001, 0)), Ok(Value::Unsigned8(0x05)));
    assert_eq!(n.od().read(Address::new(0x1003, 0)), Ok(Value::Unsigned8(8)));
    assert_eq!(n.od().read(Address::new(0x1003, 3)), Ok(Value::Unsigned32(8)));
    let reset = n.clear_errors();
    assert_eq!(reset.data(), &[0; 8]);
    assert!(n.error_history().is_empty());
    assert_eq!(n.od().read(Address::new(0x1001, 0)), Ok(Value::Unsigned8(0)));
    assert_eq!(n.od().read(Address::new(0x1003, 0)), Ok(Value::Unsigned8(0)));
}

#[test]
fn a_node_is_silent_or_alive() {
    let mut monitor = HeartbeatMonitor::new(100);
    monitor.on_frame(0x705, &[0x05], 50);
    monitor.on_frame(0x703, &[0x7F], 120);
    for now in [0, 50, 120, 150, 151, 220, 221, u64::MAX] {
        let silent = monitor.timed_out(now);
        for id in [3, 5] {
            assert_ne!(monitor.is_alive(node(id), now), silent.contains(&node(id)));
        }
    }
    assert_eq!(monitor.timed_out(221), vec![node(3), node(5)]);
    let nodes = monitor.nodes();
    assert_eq!(nodes[0].0, node(3));
    assert_eq!(nodes[1].1.last_seen, 50);
    assert!(monitor.health(node(4)).is_none());
}

// --- PDO -------------------------------------------------------------------

fn mapping(entries: &[(u16, u8, u8)]) -> PdoMapping<8> {
    let mut m = PdoMapping::new();
    for (index, subindex, bits) in entries {
        m.push(MappingEntry::new(*index, *subindex, *bits)).unwrap();
    }
    m
}

#[test]
fn predefined_pdo_ids_are_distinct() {
    let mut seen: Vec<u16> = Vec::new();
    for kind in [PdoKind::Transmit, PdoKind::Receive] {
        for number in 1..=4 {
            for id in 1..=127 {
                seen.push(kind.predefined_cob_id(number, node(id)).unwrap());
            }
        }
    }
    let all = seen.len();
    seen.sort();
    seen.dedup();
    assert_eq!(seen.len(), all);
    assert_eq!(PdoKind::Transmit.predefined_cob_id(1, node(5)), Some(0x185));
    assert_eq!(PdoKind::Receive.predefined_cob_id(4, node(5)), Some(0x505));
    assert_eq!(PdoKind::Receive.predefined_cob_id(0, node(5)), None);
    assert_eq!(PdoKind::Receive.predefined_cob_id(5, node(5)), None);
}

#[test]
fn mapping_parameters_round_trip() {
    let entry = MappingEntry::new(0x6041, 0x02, 0x10);
    assert_eq!(entry.to_u32(), 0x6041_0210);
    assert_eq!(MappingEntry::from_u32(0x6041_0210), entry);
    assert_eq!(MappingEntry::from_u32(u32::MAX).to_u32(), u32::MAX);
}

#[test]
fn packed_objects_arrive_at_the_receiver() {
    let (a, b) = (Address::new(0x6000, 1), Address::new(0x6000, 2));
    let mut from = ObjectDictionary::<2>::new();
    from.insert(a, Entry::ro(Value::Integer16(-2))).unwrap();
    from.insert(b, Entry::ro(Value::Unsigned32(0x0102_0304))).unwrap();
    let mut to = ObjectDictionary::<3>::new();
    to.insert(a, Entry::rw(Value::Integer16(0))).unwrap();
    to.insert(b, Entry::rw(Value::Unsigned32(0))).unwrap();
    let other = Address::new(0x2000, 0);
    to.insert(other, Entry::rw(Value::Unsigned8(9))).unwrap();
    let m = mapping(&[(0x6000, 2, 32), (0x6000, 1, 16)]);
    let mut buf = [0u8; 8];
    assert_eq!(pack(&m, &from, &mut buf), Ok(6));
    assert_eq!(buf, [0x04, 0x03, 0x02, 0x01, 0xFE, 0xFF, 0, 0]);
    unpack(&m, &mut to, &buf[..6]).unwrap();
    assert_eq!(to.read(a), Ok(Value::Integer16(-2)));
    assert_eq!(to.read(b), Ok(Value::Unsigned32(0x0102_0304)));
    assert_eq!(to.read(other), Ok(Value::Unsigned8(9)));
    // And the receiver can publish the same bytes.
    let mut again = [0u8; 8];
    assert_eq!(pack(&m, &to, &mut again), Ok(6));
    assert_eq!(again, buf);
}

#[test]
fn mismatched_mappings_are_refused() {
    let addr = Address::new(0x6000, 1);
    let mut od = ObjectDictionary::<2>::new();
    od.insert(addr, Entry::ro(Value::Unsigned16(1))).unwrap();
    let mut buf = [0xAAu8; 8];
    assert_eq!(pack(&mapping(&[(0x6000, 1, 8)]), &od, &mut buf), Err(Error::TypeMismatch));
    assert_eq!(pack(&mapping(&[(0x6000, 9, 8)]), &od, &mut buf), Err(Error::ObjectNotFound));
    assert_eq!(pack(&mapping(&[(0x6000, 1, 16)]), &od, &mut buf[..1]), Err(Error::BadLength));
    assert_eq!(buf, [0xAA; 8]);
    let m = mapping(&[(0x6000, 1, 16)]);
    assert_eq!(unpack(&m, &mut od, &[1, 2]), Err(Error::ReadOnly));
    assert_eq!(unpack(&m, &mut od, &[1]), Err(Error::BadLength));
    assert_eq!(unpack(&mapping(&[(0x6000, 1, 12)]), &mut od, &[1, 2]), Err(Error::TypeMismatch));
    let mut full = mapping(&[(1, 1, 8); 8]);
    assert_eq!(full.push(MappingEntry::new(1, 1, 8)), Err(Error::MappingFull));
}

// --- Text ------------------------------------------------------------------

#[test]
fn numbers_read_back_from_their_text() {
    for x in [0u64, 9, 10, 0xFF, 1_000_000_007, u64::MAX] {
        let mut decimal = String::new();
        push_decimal(&mut decimal, x);
        assert_eq!(decimal, x.to_string());
        let chars: Vec<char> = decimal.chars().collect();
        assert_eq!(parse_integer(&chars), Some(i128::from(x)));
        let mut hex = String::new();
        push_hex(&mut hex, x, 16);
        let chars: Vec<char> = hex.chars().collect();
        assert_eq!(parse_integer(&chars), Some(i128::from(x)));
    }
}
