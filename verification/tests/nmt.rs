//! Network management.
use canopen_rs::nmt::{
    decode_command, decode_heartbeat, decode_node_guard, encode_command, encode_heartbeat,
    encode_node_guard, heartbeat_cob_id, BOOTUP_FRAME, NMT_COMMAND_COB_ID,
};
use canopen_rs::{Error, NmtCommand, NmtState, NmtStateMachine, NodeId};

// --- COB-IDs -----------------------------------------------------------
#[test]
fn heartbeat_cob_id_follows_convention() {
    assert_eq!(heartbeat_cob_id(NodeId::new(0x05).unwrap()), 0x705);
    assert_eq!(NMT_COMMAND_COB_ID, 0x000);
}

// --- Command codec: known-good frames ----------------------------------
// NMT frames are [command specifier, target node]. Target 0 = all nodes.
#[test]
fn start_broadcast_matches_known_frame() {
    assert_eq!(
        encode_command(NmtCommand::StartRemoteNode, NodeId::broadcast()),
        [0x01, 0x00]
    );
}

#[test]
fn start_single_node_matches_known_frame() {
    let f = encode_command(NmtCommand::StartRemoteNode, NodeId::new(5).unwrap());
    assert_eq!(f, [0x01, 0x05]);
}

#[test]
fn stop_single_node_matches_known_frame() {
    let f = encode_command(NmtCommand::StopRemoteNode, NodeId::new(5).unwrap());
    assert_eq!(f, [0x02, 0x05]);
}

#[test]
fn reset_commands_match_known_frames() {
    let node = NodeId::new(0x7F).unwrap();
    assert_eq!(
        encode_command(NmtCommand::EnterPreOperational, node),
        [0x80, 0x7F]
    );
    assert_eq!(encode_command(NmtCommand::ResetNode, node), [0x81, 0x7F]);
    assert_eq!(
        encode_command(NmtCommand::ResetCommunication, node),
        [0x82, 0x7F]
    );
}

#[test]
fn command_frame_roundtrips() {
    let (cmd, target) = decode_command(&[0x01, 0x05]).unwrap();
    assert_eq!(cmd, NmtCommand::StartRemoteNode);
    assert_eq!(target, NodeId::new(5).unwrap());

    let (cmd, target) = decode_command(&[0x82, 0x00]).unwrap();
    assert_eq!(cmd, NmtCommand::ResetCommunication);
    assert_eq!(target, NodeId::broadcast());
}

#[test]
fn decode_rejects_unknown_command() {
    assert_eq!(decode_command(&[0x7E, 0x05]), Err(Error::UnexpectedCommand));
}

// --- Heartbeat / boot-up codec: known-good frames ----------------------
#[test]
fn heartbeat_states_match_known_frames() {
    assert_eq!(encode_heartbeat(NmtState::Operational), [0x05]);
    assert_eq!(encode_heartbeat(NmtState::Stopped), [0x04]);
    assert_eq!(encode_heartbeat(NmtState::PreOperational), [0x7F]);
    assert_eq!(BOOTUP_FRAME, [0x00]);
}

#[test]
fn heartbeat_decode_ignores_toggle_bit() {
    // Bit 7 is reserved (toggle in node guarding); decoding must mask it.
    assert_eq!(decode_heartbeat(&[0x05]).unwrap(), NmtState::Operational);
    assert_eq!(decode_heartbeat(&[0x85]).unwrap(), NmtState::Operational);
}

#[test]
fn heartbeat_decode_rejects_unknown_state() {
    assert_eq!(decode_heartbeat(&[0x42]), Err(Error::UnknownState));
}

// --- Node guarding -----------------------------------------------------
#[test]
fn node_guard_encodes_toggle_and_state() {
    // Operational (0x05) with toggle clear, then set.
    assert_eq!(encode_node_guard(NmtState::Operational, false), 0x05);
    assert_eq!(encode_node_guard(NmtState::Operational, true), 0x85);
    assert_eq!(
        decode_node_guard(0x85).unwrap(),
        (true, NmtState::Operational)
    );
    assert_eq!(
        decode_node_guard(0x7F).unwrap(),
        (false, NmtState::PreOperational)
    );
    assert_eq!(decode_node_guard(0x42), Err(Error::UnknownState));
}

// --- State machine -----------------------------------------------------
#[test]
fn boots_from_init_to_preoperational() {
    let mut sm = NmtStateMachine::new();
    assert_eq!(sm.state(), NmtState::Initialising);
    assert_eq!(sm.boot(), NmtState::PreOperational);
}

#[test]
fn ignores_operational_commands_while_initialising() {
    let mut sm = NmtStateMachine::new();
    assert_eq!(
        sm.apply(NmtCommand::StartRemoteNode),
        NmtState::Initialising
    );
}

#[test]
fn full_operational_lifecycle() {
    let mut sm = NmtStateMachine::new();
    sm.boot();
    assert_eq!(sm.apply(NmtCommand::StartRemoteNode), NmtState::Operational);
    assert_eq!(
        sm.apply(NmtCommand::EnterPreOperational),
        NmtState::PreOperational
    );
    assert_eq!(sm.apply(NmtCommand::StopRemoteNode), NmtState::Stopped);
    assert_eq!(sm.apply(NmtCommand::StartRemoteNode), NmtState::Operational);
}

#[test]
fn reset_returns_to_initialising_from_any_state() {
    let mut sm = NmtStateMachine::new();
    sm.boot();
    sm.apply(NmtCommand::StartRemoteNode);
    assert_eq!(sm.apply(NmtCommand::ResetNode), NmtState::Initialising);
    // And a fresh boot works again.
    assert_eq!(sm.boot(), NmtState::PreOperational);

    sm.apply(NmtCommand::StartRemoteNode);
    assert_eq!(
        sm.apply(NmtCommand::ResetCommunication),
        NmtState::Initialising
    );
}

#[test]
fn repeated_command_is_idempotent() {
    let mut sm = NmtStateMachine::new();
    sm.boot();
    sm.apply(NmtCommand::StartRemoteNode);
    assert_eq!(sm.apply(NmtCommand::StartRemoteNode), NmtState::Operational);
}
