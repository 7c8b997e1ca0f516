//! Heartbeat monitoring.
use canopen_rs::host::nmt::HeartbeatMonitor;
use canopen_rs::{NmtState, NodeId};

/// Timestamps are in milliseconds.
const SECOND: u64 = 1000;

fn node(id: u8) -> NodeId {
    NodeId::new(id).unwrap()
}

#[test]
fn records_heartbeat_state() {
    let mut m = HeartbeatMonitor::new(SECOND);
    let t0 = 5 * SECOND;
    // Heartbeat from node 5 reporting operational (0x05) on 0x705.
    assert_eq!(
        m.on_frame(0x705, &[0x05], t0),
        Some((node(5), NmtState::Operational))
    );
    assert_eq!(m.state(node(5)), Some(NmtState::Operational));
}

#[test]
fn decodes_bootup_frame() {
    let mut m = HeartbeatMonitor::new(SECOND);
    // Boot-up is 0x700+node with data 0x00 -> Initialising.
    assert_eq!(
        m.on_frame(0x70A, &[0x00], SECOND),
        Some((node(10), NmtState::Initialising))
    );
}

#[test]
fn ignores_non_heartbeat_frames() {
    let mut m = HeartbeatMonitor::new(SECOND);
    let now = SECOND;
    assert_eq!(m.on_frame(0x585, &[0x43, 0, 0, 0], now), None); // an SDO response
    assert_eq!(m.on_frame(0x000, &[0x01, 0x05], now), None); // an NMT command
    assert_eq!(m.on_frame(0x700, &[0x00], now), None); // node 0 is not valid
}

#[test]
fn liveness_and_timeout() {
    let mut m = HeartbeatMonitor::new(SECOND);
    let t0 = 5 * SECOND;
    m.on_frame(0x705, &[0x05], t0);

    assert!(m.is_alive(node(5), t0));
    assert!(m.is_alive(node(5), t0 + 900));
    assert!(!m.is_alive(node(5), t0 + 1500));

    let timed_out = m.timed_out(t0 + 2 * SECOND);
    assert_eq!(timed_out, vec![node(5)]);
    assert!(m.timed_out(t0).is_empty());
}

#[test]
fn unknown_node_is_not_alive() {
    let m = HeartbeatMonitor::new(SECOND);
    assert!(!m.is_alive(node(9), SECOND));
    assert_eq!(m.state(node(9)), None);
}
