//! SDO block transfer.
use canopen_rs::sdo::block::{
    crc16, decode_download_initiate, decode_download_initiate_response, decode_end,
    decode_end_response, decode_sub_response, decode_sub_segment, decode_upload_initiate,
    decode_upload_initiate_response, decode_upload_start, encode_download_initiate,
    encode_download_initiate_response, encode_end, encode_end_response, encode_sub_response,
    encode_sub_segment, encode_upload_initiate, encode_upload_initiate_response,
    encode_upload_start, BlockInitiate, BlockNegotiation, BlockReceiver, BlockWriter,
};
use canopen_rs::{Address, Error};

#[test]
fn crc16_known_vector() {
    assert_eq!(crc16(b"123456789"), 0x31C3); // canonical CRC-16/XMODEM check
    assert_eq!(crc16(&[]), 0x0000);
}

// Known-good frames: initiate a 100-byte download to 0x2000 sub 0 with CRC
// and size (command 0xC6 = CS_6 | cc | s), and its response with blksize 10
// and server CRC (command 0xA4 = CS_5 | sc).
#[test]
fn download_initiate_frames() {
    let req = encode_download_initiate(Address::new(0x2000, 0), Some(100), true);
    assert_eq!(req, [0xC6, 0x00, 0x20, 0x00, 100, 0, 0, 0]);
    assert_eq!(
        decode_download_initiate(&req).unwrap(),
        BlockInitiate {
            address: Address::new(0x2000, 0),
            size: Some(100),
            crc_support: true
        }
    );
    let resp = encode_download_initiate_response(Address::new(0x2000, 0), 10, true);
    assert_eq!(resp, [0xA4, 0x00, 0x20, 0x00, 10, 0, 0, 0]);
    assert_eq!(
        decode_download_initiate_response(&resp).unwrap(),
        BlockNegotiation {
            address: Address::new(0x2000, 0),
            blksize: 10,
            crc_support: true
        }
    );
}

// Upload mirrors download: request carries blksize (CS_5), response carries
// size (CS_6), plus the start frame (0xA3).
#[test]
fn upload_initiate_and_start_frames() {
    let req = encode_upload_initiate(Address::new(0x2000, 0), 5, false);
    assert_eq!(req, [0xA0, 0x00, 0x20, 0x00, 5, 0, 0, 0]);
    assert_eq!(decode_upload_initiate(&req).unwrap().blksize, 5);

    let resp = encode_upload_initiate_response(Address::new(0x2000, 0), Some(42), true);
    assert_eq!(resp, [0xC6, 0x00, 0x20, 0x00, 42, 0, 0, 0]);
    assert_eq!(
        decode_upload_initiate_response(&resp).unwrap().size,
        Some(42)
    );

    assert_eq!(encode_upload_start(), [0xA3, 0, 0, 0, 0, 0, 0, 0]);
    assert!(decode_upload_start(&encode_upload_start()).is_ok());
}

#[test]
fn shared_segment_and_ack_frames() {
    let f = encode_sub_segment(1, &[1, 2, 3, 4, 5, 6, 7], false).unwrap();
    assert_eq!(f, [0x01, 1, 2, 3, 4, 5, 6, 7]);
    let last = encode_sub_segment(3, &[0xAA, 0xBB], true).unwrap();
    assert_eq!(last, [0x83, 0xAA, 0xBB, 0, 0, 0, 0, 0]);
    assert!(decode_sub_segment(&last).last);

    assert_eq!(encode_sub_response(10, 20), [0xA2, 10, 20, 0, 0, 0, 0, 0]);
    assert_eq!(
        decode_sub_response(&encode_sub_response(10, 20)).unwrap(),
        (10, 20)
    );

    assert_eq!(encode_end(5, 0xBEEF), [0xD5, 0xEF, 0xBE, 0, 0, 0, 0, 0]);
    assert_eq!(decode_end(&encode_end(5, 0xBEEF)).unwrap(), (5, 0xBEEF));
    assert_eq!(encode_end_response(), [0xA1, 0, 0, 0, 0, 0, 0, 0]);
    assert!(decode_end_response(&encode_end_response()).is_ok());
}

/// Split `data` with a [`BlockWriter`] and reassemble with a
/// [`BlockReceiver`], verifying the CRC. This is the shared engine of both
/// download and upload; the direction only changes which side runs which.
fn roundtrip(data: &[u8], blksize: u8) {
    let mut writer = BlockWriter::new(data, blksize);
    let mut receiver = BlockReceiver::<128>::new();
    loop {
        while let Some(seg) = writer.next_segment() {
            receiver.push(&decode_sub_segment(&seg)).unwrap();
        }
        if writer.is_done() {
            break;
        }
        writer.start_sub_block(blksize);
    }
    assert!(receiver.is_done());
    let (unused, crc) = decode_end(&writer.end_frame(true)).unwrap();
    assert_eq!(receiver.finish(unused, crc, true).unwrap(), data);
}

#[test]
fn block_transfer_roundtrips() {
    let data: [u8; 30] = core::array::from_fn(|i| i as u8);
    roundtrip(&data, 2); // spans multiple sub-blocks
    roundtrip(&data, 127); // one sub-block
    roundtrip(&[0xAB; 7], 4); // exactly one full segment
}

#[test]
fn crc_mismatch_is_detected() {
    let data = [1u8, 2, 3, 4, 5];
    let mut writer = BlockWriter::new(&data, 1);
    let mut receiver = BlockReceiver::<16>::new();
    while let Some(seg) = writer.next_segment() {
        receiver.push(&decode_sub_segment(&seg)).unwrap();
    }
    let (unused, _) = decode_end(&writer.end_frame(true)).unwrap();
    assert_eq!(
        receiver.finish(unused, 0x0000, true),
        Err(Error::CrcMismatch)
    );
}
