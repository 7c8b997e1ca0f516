//! The standard objects.
use canopen_rs::emcy::error_code;
use canopen_rs::{
    Address, ByteString, Error, ErrorRegister, LssAddress, Node, NodeId, ObjectDictionary,
    StandardObjects, Value,
};


fn identity() -> LssAddress {
    LssAddress {
        vendor_id: 0x0000_012E,
        product_code: 0x4001_0002,
        revision_number: 0x0000_0003,
        serial_number: 0x00C0_FFEE,
    }
}

#[test]
fn inserts_the_mandatory_baseline() {
    let mut od = ObjectDictionary::<16>::new();
    StandardObjects::new(0x0004_0192, identity())
        .with_heartbeat(1000)
        .insert_into(&mut od)
        .unwrap();

    assert_eq!(
        od.read(Address::new(0x1000, 0)).unwrap(),
        Value::Unsigned32(0x0004_0192)
    );
    assert_eq!(
        od.read(Address::new(0x1001, 0)).unwrap(),
        Value::Unsigned8(0)
    );
    assert_eq!(
        od.read(Address::new(0x1017, 0)).unwrap(),
        Value::Unsigned16(1000)
    );
}

#[test]
fn identity_record_matches_the_lss_address() {
    let mut od = ObjectDictionary::<16>::new();
    let id = identity();
    StandardObjects::new(0, id).insert_into(&mut od).unwrap();

    assert_eq!(
        od.read(Address::new(0x1018, 0)).unwrap(),
        Value::Unsigned8(4) // highest sub-index
    );
    assert_eq!(
        od.read(Address::new(0x1018, 1)).unwrap(),
        Value::Unsigned32(id.vendor_id)
    );
    assert_eq!(
        od.read(Address::new(0x1018, 2)).unwrap(),
        Value::Unsigned32(id.product_code)
    );
    assert_eq!(
        od.read(Address::new(0x1018, 3)).unwrap(),
        Value::Unsigned32(id.revision_number)
    );
    assert_eq!(
        od.read(Address::new(0x1018, 4)).unwrap(),
        Value::Unsigned32(id.serial_number)
    );
}

#[test]
fn error_history_is_optional_and_sized() {
    // None by default.
    let mut od = ObjectDictionary::<16>::new();
    StandardObjects::new(0, identity())
        .insert_into(&mut od)
        .unwrap();
    assert!(od.entry(Address::new(0x1003, 0)).is_none());

    // Requested: count sub-index plus one entry each.
    let mut od = ObjectDictionary::<16>::new();
    StandardObjects::new(0, identity())
        .with_error_history(3)
        .insert_into(&mut od)
        .unwrap();
    assert_eq!(
        od.read(Address::new(0x1003, 0)).unwrap(),
        Value::Unsigned8(0)
    );
    assert!(od.entry(Address::new(0x1003, 3)).is_some());
    assert!(od.entry(Address::new(0x1003, 4)).is_none());
}

#[test]
fn node_built_from_standard_objects_mirrors_emergency() {

    let mut od = ObjectDictionary::<16>::new();
    StandardObjects::new(0x0004_0192, identity())
        .with_heartbeat(1000)
        .with_error_history(4)
        .insert_into(&mut od)
        .unwrap();
    let mut node = Node::new(NodeId::new(0x10).unwrap(), od);

    node.raise_emergency(
        error_code::VOLTAGE,
        ErrorRegister(ErrorRegister::VOLTAGE),
        [0; 5],
    );
    // The builder's 0x1001 / 0x1003 objects received the mirror, so a master
    // can read the register and the recorded code over SDO.
    assert_eq!(
        node.od().read(Address::new(0x1001, 0)).unwrap(),
        Value::Unsigned8(ErrorRegister::GENERIC | ErrorRegister::VOLTAGE)
    );
    assert_eq!(
        node.od().read(Address::new(0x1003, 0)).unwrap(),
        Value::Unsigned8(1)
    );
    assert_eq!(
        node.od().read(Address::new(0x1003, 1)).unwrap(),
        Value::Unsigned32(u32::from(error_code::VOLTAGE))
    );
}

#[test]
fn device_name_is_optional_visible_string() {
    // Omitted by default.
    let mut od = ObjectDictionary::<16>::new();
    StandardObjects::new(0, identity())
        .insert_into(&mut od)
        .unwrap();
    assert!(od.entry(Address::new(0x1008, 0)).is_none());

    // Present when set, as a VISIBLE_STRING.
    let mut od = ObjectDictionary::<16>::new();
    StandardObjects::new(0, identity())
        .with_device_name("canopen-rs node")
        .insert_into(&mut od)
        .unwrap();
    match od.read(Address::new(0x1008, 0)).unwrap() {
        Value::VisibleString(bs) => assert_eq!(bs.as_str(), Some("canopen-rs node")),
        other => panic!("expected a VISIBLE_STRING, got {other:?}"),
    }
}

#[test]
fn reports_dictionary_full() {
    // The baseline needs 9 objects; a smaller dictionary overflows.
    let mut od = ObjectDictionary::<4>::new();
    assert_eq!(
        StandardObjects::new(0, identity()).insert_into(&mut od),
        Err(Error::DictionaryFull)
    );
}
