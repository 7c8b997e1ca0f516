//! The SDO server.
use canopen_rs::sdo::{
    decode_abort, decode_download_response, decode_upload_expedited_response, encode_abort,
    encode_download_expedited, encode_download_initiate_segmented, encode_upload_request,
    SdoAbortCode,
};
use canopen_rs::{Address, DataType, Entry, NodeId, ObjectDictionary, SdoServer, Value};


fn server() -> SdoServer {
    SdoServer::new(NodeId::new(1).unwrap())
}

fn od() -> ObjectDictionary<8> {
    let mut od = ObjectDictionary::new();
    od.insert(
        Address::new(0x1000, 0),
        Entry::constant(Value::Unsigned32(0x0000_0192)),
    )
    .unwrap();
    od.insert(Address::new(0x1017, 0), Entry::rw(Value::Unsigned16(1000)))
        .unwrap();
    od.insert(Address::new(0x2000, 0), Entry::rw(Value::Unsigned64(0)))
        .unwrap();
    od
}

#[test]
fn server_cob_ids_track_node() {
    let s = SdoServer::new(NodeId::new(5).unwrap());
    assert_eq!(s.request_cob_id(), 0x605);
    assert_eq!(s.response_cob_id(), 0x585);
}

#[test]
fn expedited_read_returns_value() {
    let mut od = od();
    let req = encode_upload_request(Address::new(0x1000, 0));
    let resp = server().handle(&mut od, &req).unwrap();
    let (_, value) =
        decode_upload_expedited_response(&resp, DataType::Unsigned32).unwrap();
    assert_eq!(value, Value::Unsigned32(0x192));
}

#[test]
fn expedited_write_updates_od() {
    let mut od = od();
    let req = encode_download_expedited(
        Address::new(0x1017, 0),
        &Value::Unsigned16(1234),
    )
    .unwrap();
    let resp = server().handle(&mut od, &req).unwrap();
    assert!(decode_download_response(&resp).is_ok());
    assert_eq!(
        od.read(Address::new(0x1017, 0)).unwrap(),
        Value::Unsigned16(1234)
    );
}

#[test]
fn read_missing_object_aborts() {
    let mut od = od();
    let req = encode_upload_request(Address::new(0x9999, 0));
    let resp = server().handle(&mut od, &req).unwrap();
    let (_, code) = decode_abort(&resp).unwrap();
    assert_eq!(code, 0x0602_0000);
}

#[test]
fn write_read_only_aborts() {
    let mut od = od();
    let req =
        encode_download_expedited(Address::new(0x1000, 0), &Value::Unsigned32(1))
            .unwrap();
    let resp = server().handle(&mut od, &req).unwrap();
    let (_, code) = decode_abort(&resp).unwrap();
    assert_eq!(code, 0x0601_0002); // write of a read-only object
}

#[test]
fn client_abort_clears_state_without_reply() {
    let mut od = od();
    let mut s = server();
    // Start a segmented download so the server is busy.
    let init = encode_download_initiate_segmented(Address::new(0x2000, 0), 8);
    s.handle(&mut od, &init).unwrap();
    assert!(s.is_busy());
    let abort_frame =
        encode_abort(Address::new(0x2000, 0), SdoAbortCode::General);
    assert!(s.handle(&mut od, &abort_frame).is_none());
    assert!(!s.is_busy());
}
