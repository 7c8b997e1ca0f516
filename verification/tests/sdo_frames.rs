//! Expedited and segmented SDO frames.
use canopen_rs::sdo::{
    decode_abort, decode_data_segment, decode_download_initiate_segmented,
    decode_download_response, decode_download_segment_response,
    decode_upload_expedited_response, decode_upload_initiate_segmented_response,
    decode_upload_segment_request, encode_abort, encode_data_segment, encode_download_expedited,
    encode_download_initiate_segmented, encode_download_response,
    encode_download_segment_response, encode_upload_expedited_response,
    encode_upload_initiate_segmented_response, encode_upload_request,
    encode_upload_segment_request, request_cob_id, response_cob_id, SdoAbortCode, TOGGLE,
};
use canopen_rs::{Address, DataType, Error, NodeId, Segment, SegmentReader, SegmentWriter, Value};

// --- COB-IDs -----------------------------------------------------------
#[test]
fn mod_cob_ids_follow_convention() {
    let node = NodeId::new(0x05).unwrap();
    assert_eq!(request_cob_id(node), 0x605);
    assert_eq!(response_cob_id(node), 0x585);
}

// --- Download (write) --------------------------------------------------
// Known-good frame: expedited download of UNSIGNED32 0x12345678 to
// object 0x2000 sub 0. Command 0x23 = download initiate, expedited,
// size indicated, 4 data bytes. Index and value are little-endian.
#[test]
fn mod_download_u32_matches_known_frame() {
    let f = encode_download_expedited(Address::new(0x2000, 0), &Value::Unsigned32(0x1234_5678))
        .unwrap();
    assert_eq!(f, [0x23, 0x00, 0x20, 0x00, 0x78, 0x56, 0x34, 0x12]);
}

// Known-good frame: expedited download of UNSIGNED8 0x7F to 0x2001 sub 0.
// Command 0x2F = download initiate, expedited, size indicated, 1 data byte.
#[test]
fn mod_download_u8_matches_known_frame() {
    let f =
        encode_download_expedited(Address::new(0x2001, 0), &Value::Unsigned8(0x7F)).unwrap();
    assert_eq!(f, [0x2F, 0x01, 0x20, 0x00, 0x7F, 0x00, 0x00, 0x00]);
}

#[test]
fn mod_download_i16_matches_known_frame() {
    // -2 as INTEGER16 = 0xFFFE little-endian; command 0x2B = 2 data bytes.
    let f = encode_download_expedited(Address::new(0x6000, 1), &Value::Integer16(-2)).unwrap();
    assert_eq!(f, [0x2B, 0x00, 0x60, 0x01, 0xFE, 0xFF, 0x00, 0x00]);
}

#[test]
fn mod_download_response_roundtrips() {
    let f = encode_download_response(Address::new(0x2000, 0));
    assert_eq!(f, [0x60, 0x00, 0x20, 0x00, 0x00, 0x00, 0x00, 0x00]);
    assert_eq!(
        decode_download_response(&f).unwrap(),
        Address::new(0x2000, 0)
    );
}

#[test]
fn mod_value_too_large_for_expedited_rejected() {
    assert_eq!(
        encode_download_expedited(Address::new(0x2000, 0), &Value::Unsigned64(1)),
        Err(Error::UnsupportedTransfer)
    );
}

// --- Upload (read) -----------------------------------------------------
// Known-good frame: upload (read) request for object 0x1000 sub 0.
#[test]
fn mod_upload_request_matches_known_frame() {
    let f = encode_upload_request(Address::new(0x1000, 0));
    assert_eq!(f, [0x40, 0x00, 0x10, 0x00, 0x00, 0x00, 0x00, 0x00]);
}

// Known-good frame: expedited upload response for device type object
// 0x1000 = UNSIGNED32 0x00000192. Command 0x43 = upload initiate,
// expedited, size indicated, 4 data bytes.
#[test]
fn mod_upload_response_device_type_decodes() {
    let f = [0x43, 0x00, 0x10, 0x00, 0x92, 0x01, 0x00, 0x00];
    let (addr, value) = decode_upload_expedited_response(&f, DataType::Unsigned32).unwrap();
    assert_eq!(addr, Address::new(0x1000, 0));
    assert_eq!(value, Value::Unsigned32(0x0000_0192));
}

#[test]
fn mod_upload_response_encode_matches_known_frame() {
    let f = encode_upload_expedited_response(
        Address::new(0x1000, 0),
        &Value::Unsigned32(0x0000_0192),
    )
    .unwrap();
    assert_eq!(f, [0x43, 0x00, 0x10, 0x00, 0x92, 0x01, 0x00, 0x00]);
}

#[test]
fn mod_upload_response_wrong_type_size_errors() {
    // Frame declares 4 data bytes; decoding as U16 (2 bytes) must fail.
    let f = [0x43, 0x00, 0x10, 0x00, 0x92, 0x01, 0x00, 0x00];
    assert_eq!(
        decode_upload_expedited_response(&f, DataType::Unsigned16),
        Err(Error::TypeMismatch)
    );
}

#[test]
fn mod_decode_upload_rejects_non_upload_frame() {
    let f = encode_download_response(Address::new(0x1000, 0));
    assert_eq!(
        decode_upload_expedited_response(&f, DataType::Unsigned32),
        Err(Error::UnexpectedCommand)
    );
}

// --- Abort -------------------------------------------------------------
// Known-good frame: abort of 0x1000 sub 0 with code 0x06020000
// (object does not exist), sent little-endian in bytes 4..8.
#[test]
fn mod_abort_object_missing_matches_known_frame() {
    let f = encode_abort(Address::new(0x1000, 0), SdoAbortCode::ObjectDoesNotExist);
    assert_eq!(f, [0x80, 0x00, 0x10, 0x00, 0x00, 0x00, 0x02, 0x06]);
    let (addr, code) = decode_abort(&f).unwrap();
    assert_eq!(addr, Address::new(0x1000, 0));
    assert_eq!(code, 0x0602_0000);
}

// --- Segmented transfer ------------------------------------------------
// Known-good frame: segmented download initiate of a 20-byte value to
// 0x2000 sub 0. Command 0x21 = download initiate, size indicated, not
// expedited; size 20 little-endian in bytes 4..8.
#[test]
fn download_initiate_segmented_matches_known_frame() {
    let f = encode_download_initiate_segmented(Address::new(0x2000, 0), 20);
    assert_eq!(f, [0x21, 0x00, 0x20, 0x00, 20, 0x00, 0x00, 0x00]);
    assert_eq!(
        decode_download_initiate_segmented(&f).unwrap(),
        (Address::new(0x2000, 0), 20)
    );
}

// Known-good frame: segmented upload initiate response, 20-byte value from
// 0x2000 sub 0. Command 0x41 = upload initiate, size indicated, segmented.
#[test]
fn upload_initiate_segmented_response_matches_known_frame() {
    let f = encode_upload_initiate_segmented_response(Address::new(0x2000, 0), 20);
    assert_eq!(f, [0x41, 0x00, 0x20, 0x00, 20, 0x00, 0x00, 0x00]);
    assert_eq!(
        decode_upload_initiate_segmented_response(&f).unwrap(),
        (Address::new(0x2000, 0), 20)
    );
}

// A segmented initiate must not decode an expedited response and vice versa.
#[test]
fn segmented_initiate_rejects_expedited_frame() {
    let expedited = [0x43, 0x00, 0x10, 0x00, 0x92, 0x01, 0x00, 0x00];
    assert_eq!(
        decode_upload_initiate_segmented_response(&expedited),
        Err(Error::UnexpectedCommand)
    );
}

// Known-good frame: a full 7-byte first data segment, toggle 0, not last.
// Command 0x00: n = 0 unused bytes, toggle clear, continue.
#[test]
fn data_segment_full_matches_known_frame() {
    let f = encode_data_segment(&[1, 2, 3, 4, 5, 6, 7], false, false).unwrap();
    assert_eq!(f, [0x00, 1, 2, 3, 4, 5, 6, 7]);
}

// Known-good frame: a final 3-byte segment, toggle 1, last. Command 0x19 =
// toggle (0x10) | n=4 unused bytes (4 << 1 = 0x08) | last (0x01).
#[test]
fn data_segment_last_matches_known_frame() {
    let f = encode_data_segment(&[0xAA, 0xBB, 0xCC], true, true).unwrap();
    assert_eq!(f, [0x19, 0xAA, 0xBB, 0xCC, 0x00, 0x00, 0x00, 0x00]);
    let seg = decode_data_segment(&f).unwrap();
    assert!(seg.toggle);
    assert!(seg.last);
    assert_eq!(seg.data, &[0xAA, 0xBB, 0xCC]);
}

#[test]
fn segment_ack_and_poll_toggle_roundtrip() {
    assert_eq!(
        encode_download_segment_response(false),
        [0x20, 0, 0, 0, 0, 0, 0, 0]
    );
    assert_eq!(
        encode_download_segment_response(true),
        [0x30, 0, 0, 0, 0, 0, 0, 0]
    );
    assert!(decode_download_segment_response(&encode_download_segment_response(true)).unwrap());

    assert_eq!(
        encode_upload_segment_request(false),
        [0x60, 0, 0, 0, 0, 0, 0, 0]
    );
    assert_eq!(
        encode_upload_segment_request(true),
        [0x70, 0, 0, 0, 0, 0, 0, 0]
    );
    assert!(decode_upload_segment_request(&encode_upload_segment_request(true)).unwrap());
}

// End-to-end: split a 12-byte value into segments and reassemble it. The
// writer emits two frames (7 + 5), toggles alternating false/true, the
// second marked last; the reader validates the toggle and rebuilds it.
#[test]
fn segment_writer_reader_roundtrip() {
    let payload: [u8; 12] = [10, 20, 30, 40, 50, 60, 70, 80, 90, 100, 110, 120];
    let mut writer = SegmentWriter::new(&payload);
    let mut reader = SegmentReader::<64>::new();

    let f1 = writer.next_segment().unwrap();
    assert_eq!(f1[0] & TOGGLE, 0); // first toggle is 0
    reader.push(&decode_data_segment(&f1).unwrap()).unwrap();
    assert!(!reader.is_done());

    let f2 = writer.next_segment().unwrap();
    assert_ne!(f2[0] & TOGGLE, 0); // second toggle is 1
    reader.push(&decode_data_segment(&f2).unwrap()).unwrap();

    assert!(reader.is_done());
    assert!(writer.next_segment().is_none());
    assert_eq!(reader.data(), &payload);
}

#[test]
fn reader_rejects_toggle_out_of_sequence() {
    let mut reader = SegmentReader::<16>::new();
    // Second push should expect toggle=true; supplying false must fail.
    reader
        .push(&Segment {
            toggle: false,
            last: false,
            data: &[1, 2, 3],
        })
        .unwrap();
    assert_eq!(
        reader.push(&Segment {
            toggle: false,
            last: true,
            data: &[4, 5]
        }),
        Err(Error::ToggleMismatch)
    );
}

#[test]
fn reader_overflow_is_reported() {
    let mut reader = SegmentReader::<4>::new();
    assert_eq!(
        reader.push(&Segment {
            toggle: false,
            last: false,
            data: &[1, 2, 3, 4, 5]
        }),
        Err(Error::Overflow)
    );
}
