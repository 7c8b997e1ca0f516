//! The object dictionary.
use canopen_rs::{Address, Entry, Error, ObjectDictionary, Value};


fn od() -> ObjectDictionary<8> {
    let mut od = ObjectDictionary::new();
    // 0x1000 Device type — read-only constant.
    od.insert(
        Address::new(0x1000, 0),
        Entry::constant(Value::Unsigned32(0x0000_0192)),
    )
    .unwrap();
    // 0x1017 Producer heartbeat time — read/write.
    od.insert(Address::new(0x1017, 0), Entry::rw(Value::Unsigned16(1000)))
        .unwrap();
    od
}

#[test]
fn read_returns_stored_value() {
    assert_eq!(
        od().read(Address::new(0x1000, 0)).unwrap(),
        Value::Unsigned32(0x192)
    );
}

#[test]
fn read_missing_object_errors() {
    assert_eq!(
        od().read(Address::new(0x9999, 0)),
        Err(Error::ObjectNotFound)
    );
}

#[test]
fn write_updates_value() {
    let mut od = od();
    od.write(Address::new(0x1017, 0), Value::Unsigned16(500))
        .unwrap();
    assert_eq!(
        od.read(Address::new(0x1017, 0)).unwrap(),
        Value::Unsigned16(500)
    );
}

#[test]
fn write_read_only_object_errors() {
    let mut od = od();
    assert_eq!(
        od.write(Address::new(0x1000, 0), Value::Unsigned32(1)),
        Err(Error::ReadOnly)
    );
}

#[test]
fn write_wrong_type_errors() {
    let mut od = od();
    assert_eq!(
        od.write(Address::new(0x1017, 0), Value::Unsigned32(1)),
        Err(Error::TypeMismatch)
    );
}

#[test]
fn dictionary_full_errors() {
    let mut od: ObjectDictionary<1> = ObjectDictionary::new();
    od.insert(Address::new(0x2000, 0), Entry::rw(Value::Unsigned8(1)))
        .unwrap();
    assert_eq!(
        od.insert(Address::new(0x2001, 0), Entry::rw(Value::Unsigned8(2))),
        Err(Error::DictionaryFull)
    );
}
