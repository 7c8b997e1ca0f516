//! CAN frames.
use canopen_rs::transport::{cob_id, frame_from, CanFrame, CanId};

#[test]
fn round_trips_cob_id_and_data() {
    let frame = frame_from(0x581, &[0x43, 0x00, 0x10, 0x00]).unwrap();
    assert_eq!(frame.id(), CanId::Standard(0x581));
    assert_eq!(cob_id(&frame), Some(0x581));
    assert_eq!(frame.data(), &[0x43, 0x00, 0x10, 0x00]);
}

#[test]
fn rejects_out_of_range_cob_id() {
    // 0x800 exceeds the 11-bit standard id range.
    assert!(frame_from(0x800, &[]).is_none());
    assert!(frame_from(0x7FF, &[]).is_some());
}

#[test]
fn extended_id_has_no_cob_id() {
    let frame = CanFrame::new(CanId::Extended(0x1234), &[]).unwrap();
    assert_eq!(cob_id(&frame), None);
}

#[test]
fn rejects_over_long_data() {
    assert!(frame_from(0x581, &[0; 9]).is_none());
    assert!(frame_from(0x581, &[0; 8]).is_some());
}
