//! Node ids and errors.
use canopen_rs::{Error, NodeId};

#[test]
fn node_id_accepts_valid_range() {
    assert_eq!(NodeId::new(1).unwrap().raw(), 1);
    assert_eq!(NodeId::new(127).unwrap().raw(), 127);
}

#[test]
fn node_id_rejects_out_of_range() {
    assert_eq!(NodeId::new(0), Err(Error::InvalidNodeId));
    assert_eq!(NodeId::new(128), Err(Error::InvalidNodeId));
}

#[test]
fn broadcast_is_zero() {
    assert_eq!(NodeId::broadcast().raw(), 0);
}
