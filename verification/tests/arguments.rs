use canopen_rs::cli::{
    classify, frame_report, nmt_target, node_id, parse_datatype, parse_int, parse_nmt_command,
    parse_node, parse_object, parse_value, sent_report, ArgError,
};
use canopen_rs::{Address, DataType, NmtCommand, Value};

fn failure<T: std::fmt::Debug>(r: Result<T, ArgError>) -> String {
    r.unwrap_err().message()
}

#[test]
fn object_arguments() {
    assert_eq!(parse_object("0x0x10").unwrap(), Address::new(0x10, 0));
    assert_eq!(parse_object("+1A:+f").unwrap(), Address::new(0x1A, 0xF));
    assert_eq!(failure(parse_object("10000")), "invalid object index '10000' (expected hex)");
    assert_eq!(failure(parse_object(":1")), "invalid object index '' (expected hex)");
    assert_eq!(failure(parse_object("1018:100")), "invalid subindex '100' (expected hex)");
    assert_eq!(failure(parse_object("1018:1:2")), "invalid subindex '1:2' (expected hex)");
}

#[test]
fn data_type_arguments() {
    for (name, data_type) in [
        ("u8", DataType::Unsigned8),
        ("u16", DataType::Unsigned16),
        ("U64", DataType::Unsigned64),
        ("i8", DataType::Integer8),
        ("i32", DataType::Integer32),
        ("i64", DataType::Integer64),
        ("f32", DataType::Real32),
        ("F64", DataType::Real64),
    ] {
        assert_eq!(parse_datatype(name).unwrap(), data_type);
    }
    assert_eq!(
        failure(parse_datatype("STRING")),
        "unknown data type 'string' (use u8|u16|u32|u64|i8|i16|i32|i64|f32|f64|bool)"
    );
}

#[test]
fn integer_arguments() {
    assert_eq!(parse_int(" 0X1f ").unwrap(), 31);
    assert_eq!(parse_int("+7").unwrap(), 7);
    assert_eq!(
        parse_int("-170141183460469231731687303715884105728").unwrap(),
        i128::MIN
    );
    assert_eq!(
        failure(parse_int("170141183460469231731687303715884105728")),
        "invalid integer '170141183460469231731687303715884105728'"
    );
    assert_eq!(failure(parse_int(" 0xg ")), "invalid hex '0xg'");
    assert_eq!(failure(parse_int("")), "invalid integer ''");
    assert_eq!(failure(parse_int("-")), "invalid integer '-'");
}

#[test]
fn integers_keep_their_low_bytes() {
    assert_eq!(parse_value(DataType::Unsigned8, "-1", None).unwrap(), Value::Unsigned8(255));
    assert_eq!(parse_value(DataType::Unsigned16, "0x12345", None).unwrap(), Value::Unsigned16(0x2345));
    assert_eq!(parse_value(DataType::Integer8, "200", None).unwrap(), Value::Integer8(-56));
    assert_eq!(
        parse_value(DataType::Integer64, "0x8000000000000000", None).unwrap(),
        Value::Integer64(i64::MIN)
    );
    assert_eq!(
        parse_value(DataType::Unsigned64, "-1", None).unwrap(),
        Value::Unsigned64(u64::MAX)
    );
}

#[test]
fn boolean_arguments() {
    assert_eq!(parse_value(DataType::Boolean, " TRUE ", None).unwrap(), Value::Boolean(true));
    assert_eq!(parse_value(DataType::Boolean, "1", None).unwrap(), Value::Boolean(true));
    assert_eq!(parse_value(DataType::Boolean, "yes", None).unwrap(), Value::Boolean(false));
}

#[test]
fn real_arguments() {
    let bits = u64::from(2.5f32.to_bits());
    assert_eq!(
        parse_value(DataType::Real32, "2.5", Some(bits)).unwrap(),
        Value::Real32(2.5f32.to_bits())
    );
    assert_eq!(
        parse_value(DataType::Real64, "2.5", Some(2.5f64.to_bits())).unwrap(),
        Value::Real64(2.5f64.to_bits())
    );
    assert_eq!(failure(parse_value(DataType::Real32, "x", None)), "invalid f32");
    assert_eq!(failure(parse_value(DataType::Real64, "x", None)), "invalid f64");
    assert_eq!(failure(parse_value(DataType::Real32, "x", Some(1 << 32))), "invalid f32");
    // The bits do not matter for any other type.
    assert_eq!(parse_value(DataType::Unsigned8, "7", Some(1)).unwrap(), Value::Unsigned8(7));
    assert_eq!(
        failure(parse_value(DataType::VisibleString, "x", None)),
        "unsupported data type for writing"
    );
}

#[test]
fn command_arguments() {
    for (name, command) in [
        ("STOP", NmtCommand::StopRemoteNode),
        ("preop", NmtCommand::EnterPreOperational),
        ("pre-op", NmtCommand::EnterPreOperational),
        ("Pre-Operational", NmtCommand::EnterPreOperational),
        ("reset", NmtCommand::ResetNode),
        ("reset-node", NmtCommand::ResetNode),
        ("reset-communication", NmtCommand::ResetCommunication),
    ] {
        assert_eq!(parse_nmt_command(name).unwrap(), command);
    }
    assert_eq!(
        failure(parse_nmt_command("Go")),
        "unknown NMT command 'go' (use start|stop|preop|reset|reset-comm)"
    );
}

#[test]
fn node_arguments() {
    assert_eq!(parse_node("0x10").unwrap(), 16);
    assert_eq!(parse_node("16").unwrap(), 16);
    assert_eq!(failure(parse_node("256")), "invalid integer '256'");
    assert_eq!(failure(parse_node("0xZ")), "invalid hex '0xZ'");
    assert_eq!(node_id(127).unwrap().raw(), 127);
    assert_eq!(failure(node_id(0)), "node id 0 out of range (1..=127)");
    assert_eq!(failure(node_id(128)), "node id 128 out of range (1..=127)");
    assert_eq!(nmt_target(0).unwrap().raw(), 0);
    assert_eq!(nmt_target(5).unwrap().raw(), 5);
    assert_eq!(failure(nmt_target(200)), "node id 200 out of range (1..=127)");
}

#[test]
fn sent_reports() {
    assert_eq!(sent_report("start", 0), "sent start to all nodes");
    assert_eq!(sent_report("stop", 5), "sent stop to node 0x05");
}

#[test]
fn cob_ids_are_classified() {
    for (cob_id, label) in [
        (0x000, "NMT"),
        (0x001, ""),
        (0x080, "SYNC"),
        (0x081, "EMCY"),
        (0x0FF, "EMCY"),
        (0x100, "TIME"),
        (0x101, ""),
        (0x180, "PDO"),
        (0x57F, "PDO"),
        (0x580, "SDO tx"),
        (0x600, "SDO rx"),
        (0x67F, "SDO rx"),
        (0x680, ""),
        (0x701, "heartbeat"),
        (0x7E4, "LSS"),
        (0x7E5, "LSS"),
        (0x7FF, ""),
    ] {
        assert_eq!(classify(cob_id), label);
    }
}

#[test]
fn frame_reports() {
    assert_eq!(
        frame_report(0x585, &[0x43, 0x00, 0x10, 0x00, 0x92, 0x01, 0x04, 0xFF]),
        "585  [43 00 10 00 92 01 04 FF] SDO tx"
    );
    assert_eq!(frame_report(0, &[1, 5]), format!("  0  [{:<23}] NMT", "01 05"));
    assert_eq!(frame_report(0x80, &[]), format!(" 80  [{:<23}] SYNC", ""));
}
