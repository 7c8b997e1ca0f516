use canopen_rs::cli::{content, eds_report, value_report};
use canopen_rs::host::codegen::{generate_object_dictionary, value_literal};
use canopen_rs::host::eds::{Eds, EdsError};
use canopen_rs::{AccessType, Address, ByteString, DataType, Error, Value};

const DEVICE: &str = "\
; a comment
# another
[FileInfo]
FileName=device.eds

[DeviceInfo]
VendorName = ACME
ProductName=Widget

[DeviceComissioning]
NodeID=0x10

[1000]
ParameterName=Device type
ObjectType=0x7
DataType=0x0007
AccessType=ro
DefaultValue=0x00040192

[1018]
ParameterName=Identity
ObjectType=0x9
SubNumber=2

[1018sub0]
ParameterName=Number of entries
DataType=0x0005
AccessType=const
DefaultValue=1

[1018sub1]
ParameterName=Vendor id
DataType=0x0007
accesstype=RO
DefaultValue=0x1F

[1014]
ParameterName=COB-ID EMCY
DataType=7
AccessType=rww
DefaultValue=$NODEID+0x80

[2000]
ParameterName=Offset
DataType=0x0003
DefaultValue=5
ParameterValue=-3
";

fn device() -> Eds {
    Eds::parse(DEVICE, &[]).unwrap()
}

fn one_object(data_type: &str, access: &str, value: &str) -> Result<Eds, EdsError> {
    let text = format!("[2000]\nDataType={data_type}\nAccessType={access}\nDefaultValue={value}\n");
    Eds::parse(&text, &[])
}

fn value_of(data_type: &str, value: &str) -> Value {
    one_object(data_type, "rw", value).unwrap().objects[0].default_value
}

#[test]
fn eds_device_info_and_node_id() {
    let eds = device();
    assert_eq!(eds.vendor_name.as_deref(), Some("ACME"));
    assert_eq!(eds.product_name.as_deref(), Some("Widget"));
    assert_eq!(eds.node_id, Some(0x10));
}

#[test]
fn eds_objects_come_in_file_order() {
    let eds = device();
    let addresses: Vec<Address> = eds.objects.iter().map(|o| o.address).collect();
    assert_eq!(
        addresses,
        vec![
            Address::new(0x1000, 0),
            Address::new(0x1018, 0),
            Address::new(0x1018, 1),
            Address::new(0x1014, 0),
            Address::new(0x2000, 0),
        ]
    );
    assert_eq!(eds.objects[0].parameter_name, "Device type");
    assert_eq!(eds.objects[0].data_type, DataType::Unsigned32);
    assert_eq!(eds.objects[0].access, AccessType::Ro);
    assert_eq!(eds.objects[0].default_value, Value::Unsigned32(0x0004_0192));
    assert_eq!(eds.objects[1].access, AccessType::Const);
    assert_eq!(eds.objects[2].access, AccessType::Ro);
    assert_eq!(eds.objects[3].access, AccessType::Rw);
}

#[test]
fn eds_node_id_expression_and_configured_value() {
    let eds = device();
    assert_eq!(eds.objects[3].default_value, Value::Unsigned32(0x90));
    // The configured value of a DCF goes before the default.
    assert_eq!(eds.objects[4].default_value, Value::Integer16(-3));
    assert_eq!(eds.objects[4].access, AccessType::Rw);
    assert_eq!(value_of("0x0005", "$NODEID"), Value::Unsigned8(0));
}

#[test]
fn eds_values_by_type() {
    assert_eq!(value_of("0x0001", "true"), Value::Boolean(true));
    assert_eq!(value_of("0x0001", "0"), Value::Boolean(false));
    assert_eq!(value_of("0x0002", "-128"), Value::Integer8(-128));
    assert_eq!(value_of("0x0002", "0xFF"), Value::Integer8(-1));
    assert_eq!(value_of("0x0015", "0x8000000000000000"), Value::Integer64(i64::MIN));
    assert_eq!(value_of("0x001B", "0xFFFFFFFFFFFFFFFF"), Value::Unsigned64(u64::MAX));
    assert_eq!(value_of("0x0006", ""), Value::Unsigned16(0));
    assert_eq!(
        value_of("0x000A", "00ff10"),
        Value::OctetString(ByteString::from_bytes(&[0x00, 0xFF, 0x10]).unwrap())
    );
    assert_eq!(
        value_of("0x000F", ""),
        Value::Domain(ByteString::new())
    );
}

#[test]
fn eds_long_strings_are_cut() {
    let name = "0123456789012345678901234567890123456789";
    assert_eq!(
        value_of("0x0009", name),
        Value::VisibleString(ByteString::from_str(&name[..32]).unwrap())
    );
}

#[test]
fn eds_malformed_line_is_reported() {
    assert!(matches!(Eds::parse("[1000]\nnonsense\n", &[]), Err(EdsError::Malformed(2))));
    assert!(matches!(Eds::parse("Key=Value\n", &[]), Err(EdsError::Malformed(1))));
    assert!(matches!(Eds::parse("\n[1000\n", &[]), Err(EdsError::Malformed(2))));
    assert!(Eds::parse("", &[]).unwrap().objects.is_empty());
    assert_eq!(
        EdsError::Malformed(12).message(),
        "line 12: not a section, a field or a comment"
    );
}

#[test]
fn eds_bad_access_is_reported() {
    let error = one_object("0x0005", "maybe", "1").unwrap_err();
    assert_eq!(error, EdsError::BadAccess(Address::new(0x2000, 0)));
    assert_eq!(error.message(), "object 0x2000:00: unknown access type");
}

#[test]
fn eds_bad_value_is_reported() {
    for (data_type, value) in [
        ("0x0005", "256"),
        ("0x0005", "-1"),
        ("0x0002", "-129"),
        ("0x0006", "x"),
        ("0x0006", "$NODEID*2"),
        ("0x000A", "abc"),
        ("0x000A", "zz"),
    ] {
        let error = one_object(data_type, "rw", value).unwrap_err();
        assert_eq!(error, EdsError::BadValue(Address::new(0x2000, 0)));
    }
    assert_eq!(
        EdsError::BadValue(Address::new(0x1018, 0x1A)).message(),
        "object 0x1018:1a: value does not suit the data type"
    );
}

#[test]
fn eds_unmodelled_types_are_left_out() {
    // TIME_OF_DAY (0x0C) is not modelled.
    assert!(one_object("0x000C", "rw", "0").unwrap().objects.is_empty());
}

#[test]
fn eds_dictionary_holds_every_object() {
    let eds = device();
    let od = eds.object_dictionary::<8>().unwrap();
    for object in &eds.objects {
        let entry = od.entry(object.address).unwrap();
        assert_eq!(entry.value, object.default_value);
        assert_eq!(entry.access, object.access);
    }
    assert!(matches!(eds.object_dictionary::<4>(), Err(Error::DictionaryFull)));
}

const REALS: &str = "\
[2000]
DataType=0x0008
DefaultValue=1.5
[2001]
DataType=0x0008
[2002]
DataType=0x0011
DefaultValue=1
ParameterValue=-2e3
[2003]
DataType=0x0005
DefaultValue=7
";

#[test]
fn eds_real_texts_come_in_order() {
    let texts = Eds::real_texts(REALS).unwrap();
    assert_eq!(
        texts,
        vec![
            (DataType::Real32, String::from("1.5")),
            (DataType::Real64, String::from("-2e3")),
        ]
    );
    assert!(Eds::real_texts(DEVICE).unwrap().is_empty());
    assert_eq!(Eds::real_texts("x").unwrap_err(), EdsError::Malformed(1));
}

#[test]
fn eds_real_objects_take_their_bits() {
    let bits = [Some(u64::from(1.5f32.to_bits())), Some((-2e3f64).to_bits())];
    let eds = Eds::parse(REALS, &bits).unwrap();
    let values: Vec<Value> = eds.objects.iter().map(|o| o.default_value).collect();
    assert_eq!(
        values,
        vec![
            Value::Real32(1.5f32.to_bits()),
            Value::Real32(0),
            Value::Real64((-2e3f64).to_bits()),
            Value::Unsigned8(7),
        ]
    );
    assert_eq!(value_literal(&values[0]), "canopen_rs::Value::Real32(0x3fc00000)");
}

#[test]
fn eds_bad_real_is_reported() {
    let good = Some(u64::from(1.5f32.to_bits()));
    assert_eq!(
        Eds::parse(REALS, &[None, good]).unwrap_err(),
        EdsError::BadValue(Address::new(0x2000, 0))
    );
    assert_eq!(
        Eds::parse(REALS, &[good]).unwrap_err(),
        EdsError::BadValue(Address::new(0x2002, 0))
    );
    assert_eq!(
        Eds::parse(REALS, &[Some(1 << 32), good]).unwrap_err(),
        EdsError::BadValue(Address::new(0x2000, 0))
    );
}

#[test]
fn eds_report_lists_the_objects() {
    let mut expected = String::from("vendor:  ACME\nproduct: Widget\nnode id: 0x10\n5 objects:\n");
    for (index, sub, ty, access, value, name) in [
        (0x1000, 0, "Unsigned32", "Ro", "Unsigned32(262546)", "Device type"),
        (0x1018, 0, "Unsigned8", "Const", "Unsigned8(1)", "Number of entries"),
        (0x1018, 1, "Unsigned32", "Ro", "Unsigned32(31)", "Vendor id"),
        (0x1014, 0, "Unsigned32", "Rw", "Unsigned32(144)", "COB-ID EMCY"),
        (0x2000, 0, "Integer16", "Rw", "Integer16(-3)", "Offset"),
    ] {
        expected.push_str(&format!(
            "  {index:#06x}:{sub:02x}  {ty:<10} {access:<6} {value:<24} {name}\n"
        ));
    }
    assert_eq!(eds_report(&device(), &[]), expected);
}

#[test]
fn eds_report_without_names() {
    let text = "[2000]\nDataType=8\nAccessType=wo\nDefaultValue=1.250\n";
    let eds = Eds::parse(text, &[Some(u64::from(1.25f32.to_bits()))]).unwrap();
    let line = format!("  0x2000:00  {:<10} {:<6} {:<24} \n", "Real32", "Wo", "Real32(1.25)");
    assert_eq!(
        eds_report(&eds, &[String::from("1.25")]),
        format!("vendor:  (none)\nproduct: (none)\n1 objects:\n{line}")
    );
}

#[test]
fn values_read_as_in_source() {
    let show = |value: Value| value_report(&value, &content(&value, ""));
    assert_eq!(show(Value::Boolean(true)), "Boolean(true)");
    assert_eq!(show(Value::Integer64(i64::MIN)), "Integer64(-9223372036854775808)");
    assert_eq!(show(Value::Unsigned64(u64::MAX)), "Unsigned64(18446744073709551615)");
    let text = "caf\u{e9} \"\\\n";
    assert_eq!(
        show(Value::VisibleString(ByteString::from_str(text).unwrap())),
        format!("VisibleString(ByteString({text:?}))")
    );
    assert_eq!(
        show(Value::OctetString(ByteString::from_bytes(&[1, 0xFF]).unwrap())),
        "OctetString(ByteString([1, 255]))"
    );
    let real = Value::Real64(0.1f64.to_bits());
    assert_eq!(value_report(&real, &content(&real, "0.1")), "Real64(0.1)");
}

#[test]
fn generated_source_is_exact() {
    let eds = one_object("0x0003", "rw", "-2").unwrap();
    assert_eq!(
        generate_object_dictionary(&eds, "od"),
        "/// Object dictionary generated from an EDS by canopen-host.\n\
         pub fn od() -> canopen_rs::ObjectDictionary<1> {\n    \
         let mut od = canopen_rs::ObjectDictionary::new();\n    \
         od.insert(canopen_rs::Address::new(0x2000, 0x00), canopen_rs::Entry { value: canopen_rs::Value::Integer16(-2), access: canopen_rs::AccessType::Rw }).unwrap();\n    \
         od\n\
         }\n"
    );
    assert_eq!(value_literal(&Value::Boolean(false)), "canopen_rs::Value::Boolean(false)");
    assert_eq!(
        value_literal(&Value::Unsigned64(0xAB)),
        "canopen_rs::Value::Unsigned64(0x00000000000000ab)"
    );
    assert_eq!(
        value_literal(&Value::Domain(ByteString::new())),
        "canopen_rs::Value::Domain(canopen_rs::ByteString::from_bytes(&[]).unwrap())"
    );
}
