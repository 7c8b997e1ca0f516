//! The emergency object.
use canopen_rs::emcy::{emcy_cob_id, error_code};
use canopen_rs::{EmergencyMessage, Error, ErrorRegister, NodeId};

#[test]
fn cob_id_follows_convention() {
    assert_eq!(emcy_cob_id(NodeId::new(0x05).unwrap()), 0x085);
}

// Known-good frame: overvoltage (code 0x3210) with the generic+voltage
// register bits set (0x05) and vendor bytes 0xAA..0xEE. Code is
// little-endian in bytes 0..2.
#[test]
fn encode_matches_known_frame() {
    let msg = EmergencyMessage::new(
        0x3210,
        ErrorRegister(ErrorRegister::GENERIC | ErrorRegister::VOLTAGE),
        [0xAA, 0xBB, 0xCC, 0xDD, 0xEE],
    );
    assert_eq!(msg.encode(), [0x10, 0x32, 0x05, 0xAA, 0xBB, 0xCC, 0xDD, 0xEE]);
}

#[test]
fn decode_matches_known_frame() {
    let msg = EmergencyMessage::decode(&[0x10, 0x32, 0x05, 0xAA, 0xBB, 0xCC, 0xDD, 0xEE]).unwrap();
    assert_eq!(msg.error_code, 0x3210);
    assert!(msg.error_register.contains(ErrorRegister::VOLTAGE));
    assert!(msg.error_register.has_error());
    assert_eq!(msg.vendor_specific, [0xAA, 0xBB, 0xCC, 0xDD, 0xEE]);
}

#[test]
fn encode_decode_roundtrip() {
    let msg = EmergencyMessage::new(
        error_code::COMMUNICATION,
        ErrorRegister(ErrorRegister::GENERIC | ErrorRegister::COMMUNICATION),
        [1, 2, 3, 4, 5],
    );
    assert_eq!(EmergencyMessage::decode(&msg.encode()).unwrap(), msg);
}

#[test]
fn error_reset_is_recognised() {
    let reset = EmergencyMessage::error_reset();
    assert!(reset.is_error_reset());
    assert!(!reset.error_register.has_error());
    assert_eq!(reset.encode(), [0; 8]);
}

#[test]
fn emcy_decode_rejects_wrong_length() {
    assert_eq!(EmergencyMessage::decode(&[0; 7]), Err(Error::BadLength));
}
