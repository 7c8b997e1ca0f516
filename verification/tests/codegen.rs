//! Source generation.
use canopen_rs::host::codegen::generate_object_dictionary;
use canopen_rs::host::eds::Eds;
use canopen_rs::{AccessType, Value};

use canopen_rs::{Address, ObjectDictionary};

const SAMPLE: &str = "\
[1000]
ParameterName=Device type
DataType=0x0007
AccessType=ro
DefaultValue=0x00040192

[1008]
ParameterName=Device name
DataType=0x0009
AccessType=const
DefaultValue=Widget

[1017]
ParameterName=Producer heartbeat time
DataType=0x0006
AccessType=rw
DefaultValue=1000
";

// The exact shape `generate_object_dictionary` emits for SAMPLE — kept here
// so the compiler proves the generated pattern is valid Rust that builds a
// correct object dictionary. If the generator's format changes, update both.
fn generated_sample() -> ObjectDictionary<3> {
    let mut od = ObjectDictionary::new();
    od.insert(
        Address::new(0x1000, 0x00),
        canopen_rs::Entry {
            value: canopen_rs::Value::Unsigned32(0x00040192),
            access: AccessType::Ro,
        },
    )
    .unwrap();
    od.insert(
        Address::new(0x1008, 0x00),
        canopen_rs::Entry {
            value: canopen_rs::Value::VisibleString(
                canopen_rs::ByteString::from_bytes(&[0x57, 0x69, 0x64, 0x67, 0x65, 0x74])
                    .unwrap(),
            ),
            access: AccessType::Const,
        },
    )
    .unwrap();
    od.insert(
        Address::new(0x1017, 0x00),
        canopen_rs::Entry {
            value: canopen_rs::Value::Unsigned16(0x03e8),
            access: AccessType::Rw,
        },
    )
    .unwrap();
    od
}

#[test]
fn generated_shape_builds_a_correct_od() {
    let od = generated_sample();
    assert_eq!(
        od.read(Address::new(0x1000, 0)).unwrap(),
        Value::Unsigned32(0x0004_0192)
    );
    assert_eq!(
        od.read(Address::new(0x1017, 0)).unwrap(),
        Value::Unsigned16(1000)
    );
    match od.read(Address::new(0x1008, 0)).unwrap() {
        Value::VisibleString(bs) => assert_eq!(bs.as_str(), Some("Widget")),
        other => panic!("expected VISIBLE_STRING, got {other:?}"),
    }
}

#[test]
fn generator_emits_the_expected_source() {
    let eds = Eds::parse(SAMPLE, &[]).unwrap();
    let src = generate_object_dictionary(&eds, "device_od");

    assert!(src.contains("pub fn device_od() -> canopen_rs::ObjectDictionary<3> {"));
    assert!(src.contains(
        "od.insert(canopen_rs::Address::new(0x1000, 0x00), canopen_rs::Entry { value: canopen_rs::Value::Unsigned32(0x00040192), access: canopen_rs::AccessType::Ro }).unwrap();"
    ));
    assert!(src.contains(
        "od.insert(canopen_rs::Address::new(0x1017, 0x00), canopen_rs::Entry { value: canopen_rs::Value::Unsigned16(0x03e8), access: canopen_rs::AccessType::Rw }).unwrap();"
    ));
    // The VISIBLE_STRING object.
    assert!(src.contains(
        "canopen_rs::Value::VisibleString(canopen_rs::ByteString::from_bytes(&[0x57, 0x69, 0x64, 0x67, 0x65, 0x74]).unwrap())"
    ));
}
