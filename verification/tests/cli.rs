//! Command-line arguments.
use canopen_rs::cli::{parse_datatype, parse_nmt_command, parse_object, parse_value};
use canopen_rs::{Address, DataType, NmtCommand, Value};

#[test]
fn parses_object_addresses() {
    assert_eq!(parse_object("1017").unwrap(), Address::new(0x1017, 0));
    assert_eq!(parse_object("1018:1").unwrap(), Address::new(0x1018, 1));
    assert_eq!(parse_object("0x6000:0x2").unwrap(), Address::new(0x6000, 2));
    assert!(parse_object("xyz").is_err());
}

#[test]
fn parses_data_types() {
    assert_eq!(parse_datatype("u32").unwrap(), DataType::Unsigned32);
    assert_eq!(parse_datatype("I16").unwrap(), DataType::Integer16);
    assert_eq!(parse_datatype("bool").unwrap(), DataType::Boolean);
    assert!(parse_datatype("u128").is_err());
}

#[test]
fn parses_values() {
    assert_eq!(
        parse_value(DataType::Unsigned16, "1000", None).unwrap(),
        Value::Unsigned16(1000)
    );
    assert_eq!(
        parse_value(DataType::Unsigned32, "0x1F4", None).unwrap(),
        Value::Unsigned32(0x1F4)
    );
    assert_eq!(
        parse_value(DataType::Integer8, "-5", None).unwrap(),
        Value::Integer8(-5)
    );
    assert_eq!(
        parse_value(DataType::Boolean, "true", None).unwrap(),
        Value::Boolean(true)
    );
    assert_eq!(
        parse_value(DataType::Real32, "1.5", "1.5".parse::<f32>().ok().map(|x| u64::from(x.to_bits())))
            .unwrap(),
        Value::Real32(1.5f32.to_bits())
    );
    assert!(parse_value(DataType::Unsigned8, "notnum", None).is_err());
}

#[test]
fn parses_nmt_commands() {
    assert_eq!(
        parse_nmt_command("start").unwrap(),
        NmtCommand::StartRemoteNode
    );
    assert_eq!(
        parse_nmt_command("reset-comm").unwrap(),
        NmtCommand::ResetCommunication
    );
    assert!(parse_nmt_command("frobnicate").is_err());
}
