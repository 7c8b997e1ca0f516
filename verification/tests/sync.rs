//! The SYNC object.
use canopen_rs::sync::{decode, encode_counter, is_valid_counter_overflow, SYNC_COB_ID};
use canopen_rs::{Error, SyncCounter};

#[test]
fn sync_cob_id_is_default() {
    assert_eq!(SYNC_COB_ID, 0x080);
}

#[test]
fn counter_overflow_validation() {
    assert!(is_valid_counter_overflow(0));
    assert!(!is_valid_counter_overflow(1)); // reserved
    assert!(is_valid_counter_overflow(2));
    assert!(is_valid_counter_overflow(240));
    assert!(!is_valid_counter_overflow(241));
}

#[test]
fn decode_empty_and_counting_frames() {
    assert_eq!(decode(&[]).unwrap(), None);
    assert_eq!(decode(&[7]).unwrap(), Some(7));
    assert_eq!(decode(&[1, 2]), Err(Error::BadLength));
}

#[test]
fn encode_counter_frame() {
    assert_eq!(encode_counter(5), [5]);
}

#[test]
fn counter_disabled_yields_none() {
    let mut c = SyncCounter::new(0).unwrap();
    assert!(!c.is_counting());
    assert_eq!(c.advance(), None);
}

#[test]
fn counter_cycles_and_wraps() {
    let mut c = SyncCounter::new(3).unwrap();
    assert_eq!(c.advance(), Some(1));
    assert_eq!(c.advance(), Some(2));
    assert_eq!(c.advance(), Some(3));
    assert_eq!(c.advance(), Some(1)); // wraps back to 1
}

#[test]
fn new_rejects_reserved_overflow() {
    assert_eq!(SyncCounter::new(1).err(), Some(Error::InvalidSyncCounter));
    assert_eq!(SyncCounter::new(241).err(), Some(Error::InvalidSyncCounter));
}
