//! The TIME object.
use canopen_rs::time::{TimeOfDay, MS_PER_DAY, TIME_COB_ID};
use canopen_rs::Error;

#[test]
fn time_cob_id_is_default() {
    assert_eq!(TIME_COB_ID, 0x100);
}

#[test]
fn encode_decode_roundtrips() {
    let t = TimeOfDay::new(45_000_000, 15_600); // ~12:30, a plausible day count
    assert_eq!(TimeOfDay::decode(&t.encode()).unwrap(), t);
}

#[test]
fn masks_reserved_millisecond_bits() {
    // Bits above 28 are reserved and must not survive an encode/decode.
    let t = TimeOfDay::new(0xF000_0001, 1);
    assert_eq!(t.encode()[..4], [0x01, 0x00, 0x00, 0x00]);
    assert_eq!(TimeOfDay::decode(&t.encode()).unwrap().milliseconds, 1);
}

#[test]
fn decode_rejects_short_frame() {
    assert_eq!(TimeOfDay::decode(&[0; 5]), Err(Error::BadLength));
}
