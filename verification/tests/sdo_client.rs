//! The SDO client.
use canopen_rs::sdo::{
    encode_abort, encode_download_response, encode_upload_expedited_response, SdoAbortCode,
};
use canopen_rs::{Address, DataType, NodeId, SdoClient, SdoEvent, Value};

fn client() -> SdoClient {
    SdoClient::new(NodeId::new(0x10).unwrap())
}

#[test]
fn client_cob_ids_track_node() {
    let c = client();
    assert_eq!(c.request_cob_id(), 0x610);
    assert_eq!(c.response_cob_id(), 0x590);
}

#[test]
fn read_emits_upload_request_then_completes_on_expedited_response() {
    let mut c = client();
    let req = c.read(Address::new(0x1000, 0), DataType::Unsigned32);
    assert_eq!(req[0], 0x40); // upload initiate
    assert!(c.is_busy());
    // Server replies with an expedited upload response carrying 0x192.
    let resp =
        encode_upload_expedited_response(Address::new(0x1000, 0), &Value::Unsigned32(0x192))
            .unwrap();
    assert_eq!(c.on_response(&resp), SdoEvent::Complete(Some(Value::Unsigned32(0x192))));
    assert!(!c.is_busy());
}

#[test]
fn write_small_value_is_expedited() {
    let mut c = client();
    let req = c.write(Address::new(0x1017, 0), Value::Unsigned16(1234));
    assert_eq!(req[0] & 0xE0, 0x20); // download initiate
    assert_ne!(req[0] & 0x02, 0); // expedited
    let resp = encode_download_response(Address::new(0x1017, 0));
    assert_eq!(c.on_response(&resp), SdoEvent::Complete(None));
}

#[test]
fn abort_response_surfaces_code() {
    let mut c = client();
    c.read(Address::new(0x9999, 0), DataType::Unsigned32);
    let abort = encode_abort(
        Address::new(0x9999, 0),
        SdoAbortCode::ObjectDoesNotExist,
    );
    assert_eq!(c.on_response(&abort), SdoEvent::Aborted(0x0602_0000));
    assert!(!c.is_busy());
}
