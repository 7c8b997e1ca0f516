use canopen_rs::host::transport::{
    accept, answers, open_error, read_step, write_step, ReadStep, Received, SdoError, WriteStep, ENODEV,
};
use canopen_rs::pdo::{pdo_can_id, pdo_is_valid};
use canopen_rs::transport::{cob_id, frame_from, CanFrame, CanId};
use canopen_rs::{
    Address, Entry, Error, MappingEntry, Node, NodeId, ObjectDictionary, PdoMapping, SdoEvent,
    TransmissionType, Value,
};

#[test]
fn only_standard_data_frames_are_accepted() {
    let frame = CanFrame::new(CanId::Standard(0x585), &[1, 2, 3]).unwrap();
    let received = accept(true, &frame).unwrap();
    assert_eq!(received.cob_id, 0x585);
    assert_eq!(received.data(), &[1, 2, 3]);
    assert_eq!(received.payload(), &[1, 2, 3, 0, 0, 0, 0, 0]);
    assert!(accept(false, &frame).is_none());
    let extended = CanFrame::new(CanId::Extended(0x585), &[1]).unwrap();
    assert!(accept(true, &extended).is_none());
    assert_eq!(cob_id(&extended), None);
}

#[test]
fn identifiers_have_eleven_bits() {
    let frame = frame_from(0x7FF, &[0; 8]).unwrap();
    assert_eq!(frame.id(), CanId::Standard(0x7FF));
    assert!(frame_from(0x800, &[]).is_none());
    assert!(frame_from(0x100, &[0; 9]).is_none());
    assert!(CanFrame::new(CanId::Standard(1), &[0; 9]).is_none());
}

#[test]
fn an_answer_comes_on_its_cob_id() {
    let received = Received::new(0x585, &[0x60]);
    assert!(answers(&received, 0x585));
    assert!(!answers(&received, 0x586));
}

#[test]
fn received_data_is_clamped() {
    let received = Received::new(0x181, &[9; 12]);
    assert_eq!(received.data(), &[9; 8]);
}

#[test]
fn steps_of_a_read() {
    assert!(matches!(read_step(SdoEvent::Send([7; 8])), ReadStep::Send(f) if f == [7; 8]));
    assert!(matches!(
        read_step(SdoEvent::Complete(Some(Value::Unsigned8(1)))),
        ReadStep::Done(Ok(Value::Unsigned8(1)))
    ));
    assert!(matches!(
        read_step(SdoEvent::Complete(None)),
        ReadStep::Done(Err(SdoError::NoValue))
    ));
    assert!(matches!(
        read_step(SdoEvent::Aborted(5)),
        ReadStep::Done(Err(SdoError::Aborted(5)))
    ));
}

#[test]
fn steps_of_a_write() {
    assert!(matches!(write_step(SdoEvent::Send([7; 8])), WriteStep::Send(f) if f == [7; 8]));
    assert!(matches!(write_step(SdoEvent::Complete(None)), WriteStep::Done(Ok(()))));
    assert!(matches!(
        write_step(SdoEvent::Aborted(5)),
        WriteStep::Done(Err(SdoError::Aborted(5)))
    ));
}

#[test]
fn transaction_errors_are_described() {
    assert_eq!(
        SdoError::Io(String::from("timed out")).message(),
        "SDO transport I/O error: timed out"
    );
    assert_eq!(
        SdoError::Aborted(0x0602_0000).message(),
        "SDO transfer aborted (code 0x06020000)"
    );
    assert_eq!(SdoError::NoValue.message(), "SDO transfer completed without a value");
}

#[test]
fn open_errors_hint_at_a_missing_interface() {
    assert_eq!(
        open_error("can0", Some(1), "not permitted"),
        "opening CAN interface 'can0': not permitted"
    );
    assert_eq!(open_error("can0", None, "odd"), "opening CAN interface 'can0': odd");
    let hinted = open_error("vcan0", Some(ENODEV), "No such device");
    assert_eq!(
        hinted,
        "opening CAN interface 'vcan0': No such device \u{2014} interface not found; is it up? (e.g. `sudo ip link set up vcan0`)"
    );
}

#[test]
fn errors_are_described() {
    assert_eq!(Error::BadLength.message(), "frame or buffer length invalid for operation");
    assert_eq!(Error::InvalidNodeId.message(), "node id out of range (must be 1..=127)");
    assert_eq!(Error::MappingFull.message(), "PDO mapping is full");
}

#[test]
fn transmission_types_by_byte() {
    assert_eq!(TransmissionType::from_byte(0), Ok(TransmissionType::SynchronousAcyclic));
    assert_eq!(TransmissionType::from_byte(240), Ok(TransmissionType::SynchronousCyclic(240)));
    assert_eq!(TransmissionType::from_byte(241), Err(Error::Overflow));
    assert_eq!(TransmissionType::from_byte(251), Err(Error::Overflow));
    assert_eq!(TransmissionType::from_byte(252), Ok(TransmissionType::RtrSynchronous));
    assert_eq!(TransmissionType::from_byte(253), Ok(TransmissionType::RtrEvent));
    assert_eq!(TransmissionType::from_byte(254), Ok(TransmissionType::EventDrivenManufacturer));
    assert_eq!(TransmissionType::from_byte(255), Ok(TransmissionType::EventDrivenProfile));
}

#[test]
fn pdo_cob_id_parameters() {
    assert!(pdo_is_valid(0x185));
    assert!(!pdo_is_valid(0x8000_0185));
    assert_eq!(pdo_can_id(0x4000_0185), 0x185);
}

fn mapped() -> PdoMapping<8> {
    let mut m = PdoMapping::new();
    m.push(MappingEntry::new(0x6000, 1, 8)).unwrap();
    m
}

fn operational() -> Node<4> {
    let mut od = ObjectDictionary::new();
    od.insert(Address::new(0x6000, 1), Entry::rw(Value::Unsigned8(5))).unwrap();
    let mut node = Node::new(NodeId::new(1).unwrap(), od);
    node.boot();
    node.on_frame(0x000, &[0x01, 0x00]);
    node
}

#[test]
fn pdo_tables_are_bounded() {
    let mut node = operational();
    for i in 0..4 {
        node.add_rpdo(0x200 + i, mapped()).unwrap();
        node.add_tpdo(0x180 + i, mapped(), TransmissionType::SynchronousCyclic(1)).unwrap();
    }
    assert_eq!(node.add_rpdo(0x300, mapped()), Err(Error::MappingFull));
    assert_eq!(
        node.add_tpdo(0x280, mapped(), TransmissionType::RtrEvent),
        Err(Error::MappingFull)
    );
    let frames = node.sync_tpdos();
    let ids: Vec<u16> = frames.iter().map(|f| f.cob_id).collect();
    assert_eq!(ids, vec![0x180, 0x181, 0x182, 0x183]);
    assert_eq!(frames[3].data(), &[5]);
}

#[test]
fn process_data_passes_through_the_dictionary() {
    let mut node = operational();
    node.add_rpdo(0x201, mapped()).unwrap();
    node.add_tpdo(0x181, mapped(), TransmissionType::SynchronousAcyclic).unwrap();
    node.add_tpdo(0x281, mapped(), TransmissionType::EventDrivenProfile).unwrap();
    node.add_tpdo(0x381, PdoMapping::new(), TransmissionType::SynchronousAcyclic).unwrap();
    assert!(node.on_frame(0x201, &[0x77]).is_none());
    let frames = node.sync_tpdos();
    assert_eq!(frames.len(), 1);
    assert_eq!((frames[0].cob_id, frames[0].data()), (0x181, &[0x77u8][..]));
    assert_eq!(node.tpdo(1).unwrap().data(), &[0x77]);
    assert!(node.tpdo(2).is_none());
    assert!(node.tpdo(3).is_none());
    // A frame that is no PDO of the node, and one that is too short, leave it.
    node.on_frame(0x202, &[0x11]);
    node.on_frame(0x201, &[]);
    assert_eq!(node.od().read(Address::new(0x6000, 1)), Ok(Value::Unsigned8(0x77)));
}
