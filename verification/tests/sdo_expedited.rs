//! Expedited SDO frames.
use canopen_rs::sdo::{
    decode_abort, decode_download_response, decode_upload_expedited_response, encode_abort,
    encode_download_expedited, encode_download_response, encode_upload_expedited_response,
    encode_upload_request, request_cob_id, response_cob_id, SdoAbortCode,
};
use canopen_rs::{Address, DataType, Error, NodeId, Value};

// --- COB-IDs -----------------------------------------------------------
#[test]
fn sdo_cob_ids_follow_convention() {
    let node = NodeId::new(0x05).unwrap();
    assert_eq!(request_cob_id(node), 0x605);
    assert_eq!(response_cob_id(node), 0x585);
}

// --- Download (write) --------------------------------------------------
// Known-good frame: expedited download of UNSIGNED32 0x12345678 to
// object 0x2000 sub 0. Command 0x23 = download initiate, expedited,
// size indicated, 4 data bytes. Index and value are little-endian.
#[test]
fn sdo_download_u32_matches_known_frame() {
    let f =
        encode_download_expedited(Address::new(0x2000, 0), &Value::Unsigned32(0x1234_5678))
            .unwrap();
    assert_eq!(f, [0x23, 0x00, 0x20, 0x00, 0x78, 0x56, 0x34, 0x12]);
}

// Known-good frame: expedited download of UNSIGNED8 0x7F to 0x2001 sub 0.
// Command 0x2F = download initiate, expedited, size indicated, 1 data byte.
#[test]
fn sdo_download_u8_matches_known_frame() {
    let f = encode_download_expedited(Address::new(0x2001, 0), &Value::Unsigned8(0x7F)).unwrap();
    assert_eq!(f, [0x2F, 0x01, 0x20, 0x00, 0x7F, 0x00, 0x00, 0x00]);
}

#[test]
fn sdo_download_i16_matches_known_frame() {
    // -2 as INTEGER16 = 0xFFFE little-endian; command 0x2B = 2 data bytes.
    let f = encode_download_expedited(Address::new(0x6000, 1), &Value::Integer16(-2)).unwrap();
    assert_eq!(f, [0x2B, 0x00, 0x60, 0x01, 0xFE, 0xFF, 0x00, 0x00]);
}

#[test]
fn sdo_download_response_roundtrips() {
    let f = encode_download_response(Address::new(0x2000, 0));
    assert_eq!(f, [0x60, 0x00, 0x20, 0x00, 0x00, 0x00, 0x00, 0x00]);
    assert_eq!(decode_download_response(&f).unwrap(), Address::new(0x2000, 0));
}

#[test]
fn sdo_value_too_large_for_expedited_rejected() {
    assert_eq!(
        encode_download_expedited(Address::new(0x2000, 0), &Value::Unsigned64(1)),
        Err(Error::UnsupportedTransfer)
    );
}

// --- Upload (read) -----------------------------------------------------
// Known-good frame: upload (read) request for object 0x1000 sub 0.
#[test]
fn sdo_upload_request_matches_known_frame() {
    let f = encode_upload_request(Address::new(0x1000, 0));
    assert_eq!(f, [0x40, 0x00, 0x10, 0x00, 0x00, 0x00, 0x00, 0x00]);
}

// Known-good frame: expedited upload response for device type object
// 0x1000 = UNSIGNED32 0x00000192. Command 0x43 = upload initiate,
// expedited, size indicated, 4 data bytes.
#[test]
fn sdo_upload_response_device_type_decodes() {
    let f = [0x43, 0x00, 0x10, 0x00, 0x92, 0x01, 0x00, 0x00];
    let (addr, value) =
        decode_upload_expedited_response(&f, DataType::Unsigned32).unwrap();
    assert_eq!(addr, Address::new(0x1000, 0));
    assert_eq!(value, Value::Unsigned32(0x0000_0192));
}

#[test]
fn sdo_upload_response_encode_matches_known_frame() {
    let f = encode_upload_expedited_response(
        Address::new(0x1000, 0),
        &Value::Unsigned32(0x0000_0192),
    )
    .unwrap();
    assert_eq!(f, [0x43, 0x00, 0x10, 0x00, 0x92, 0x01, 0x00, 0x00]);
}

#[test]
fn sdo_upload_response_wrong_type_size_errors() {
    // Frame declares 4 data bytes; decoding as U16 (2 bytes) must fail.
    let f = [0x43, 0x00, 0x10, 0x00, 0x92, 0x01, 0x00, 0x00];
    assert_eq!(
        decode_upload_expedited_response(&f, DataType::Unsigned16),
        Err(Error::TypeMismatch)
    );
}

#[test]
fn sdo_decode_upload_rejects_non_upload_frame() {
    let f = encode_download_response(Address::new(0x1000, 0));
    assert_eq!(
        decode_upload_expedited_response(&f, DataType::Unsigned32),
        Err(Error::UnexpectedCommand)
    );
}

// --- Abort -------------------------------------------------------------
// Known-good frame: abort of 0x1000 sub 0 with code 0x06020000
// (object does not exist), sent little-endian in bytes 4..8.
#[test]
fn sdo_abort_object_missing_matches_known_frame() {
    let f = encode_abort(Address::new(0x1000, 0), SdoAbortCode::ObjectDoesNotExist);
    assert_eq!(f, [0x80, 0x00, 0x10, 0x00, 0x00, 0x00, 0x02, 0x06]);
    let (addr, code) = decode_abort(&f).unwrap();
    assert_eq!(addr, Address::new(0x1000, 0));
    assert_eq!(code, 0x0602_0000);
}
