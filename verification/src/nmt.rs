//! Network Management (NMT) — the node state machine (CiA 301 §7.3).
//!
//! NMT governs a node's lifecycle. A node powers up in *Initialisation*,
//! emits its boot-up message, and autonomously enters *Pre-operational*.
//! From there an NMT master moves it between *Operational* and *Stopped* with
//! node-control commands broadcast on COB-ID `0x000`. Each node reports its
//! current state to the network through the error-control (heartbeat)
//! producer on `0x700 + node`.
//!
//! The functions here encode and decode raw CAN *data fields* only; selecting
//! the COB-ID and moving the frame is the transport's job. [`NmtStateMachine`]
//! is the node-side state logic, with no I/O.
use vstd::prelude::*;

use crate::types::{Error, NodeId, Result};

verus! {

/// COB-ID of the NMT node-control channel (master → nodes): `0x000`.
///
/// This is the highest-priority id on the bus; a single frame can address one
/// node or, with target `0`, every node at once.
pub const NMT_COMMAND_COB_ID: u16 = 0x000;

/// COB-ID base for the error-control (heartbeat / boot-up) channel:
/// `0x700 + node`.
pub const HEARTBEAT_COB_BASE: u16 = 0x700;

/// The COB-ID of a node's heartbeat / boot-up producer channel.
pub fn heartbeat_cob_id(node: NodeId) -> (id: u16)
    ensures
        id == 0x700 + node@,
{
    HEARTBEAT_COB_BASE + node.raw() as u16
}

/// A node's NMT state.
#[derive(Debug, Clone, Copy, PartialEq, Eq, Structural)]
pub enum NmtState {
    /// Initialising (boot-up); reported as `0`.
    Initialising,
    /// Stopped: only NMT and error-control are active.
    Stopped,
    /// Operational: all communication objects (incl. PDOs) are active.
    Operational,
    /// Pre-operational: SDOs active, PDOs inactive.
    PreOperational,
}

impl NmtState {
    /// The value carried in a heartbeat frame (CiA 301 §7.2.8.3).
    pub open spec fn wire(self) -> u8 {
        match self {
            NmtState::Initialising => 0x00,
            NmtState::Stopped => 0x04,
            NmtState::Operational => 0x05,
            NmtState::PreOperational => 0x7F,
        }
    }

    /// The state that a heartbeat byte reports, the toggle bit (7) ignored.
    pub open spec fn of_wire(byte: u8) -> Result<NmtState> {
        if byte % 0x80 == 0x00 {
            Ok(NmtState::Initialising)
        } else if byte % 0x80 == 0x04 {
            Ok(NmtState::Stopped)
        } else if byte % 0x80 == 0x05 {
            Ok(NmtState::Operational)
        } else if byte % 0x80 == 0x7F {
            Ok(NmtState::PreOperational)
        } else {
            Err(Error::UnknownState)
        }
    }

    /// The value carried in a heartbeat frame. [`NmtState::Initialising`] is
    /// reported as `0` — the value of a boot-up message, sent once as the node
    /// leaves initialisation.
    pub fn to_wire(self) -> (byte: u8)
        ensures
            byte == self.wire(),
    {
        match self {
            NmtState::Initialising => 0x00,
            NmtState::Stopped => 0x04,
            NmtState::Operational => 0x05,
            NmtState::PreOperational => 0x7F,
        }
    }

    /// Decode a heartbeat state byte, ignoring the reserved toggle bit (7).
    ///
    /// Returns [`Error::UnknownState`] for an unrecognised value.
    pub fn from_wire(byte: u8) -> (r: Result<Self>)
        ensures
            r == NmtState::of_wire(byte),
    {
        match byte % 0x80 {
            0x00 => Ok(NmtState::Initialising),
            0x04 => Ok(NmtState::Stopped),
            0x05 => Ok(NmtState::Operational),
            0x7F => Ok(NmtState::PreOperational),
            _ => Err(Error::UnknownState),
        }
    }
}

/// An NMT node-control command from the master (CiA 301 §7.2.8.2).
#[derive(Debug, Clone, Copy, PartialEq, Eq, Structural)]
pub enum NmtCommand {
    /// Start remote node → *Operational*.
    StartRemoteNode,
    /// Stop remote node → *Stopped*.
    StopRemoteNode,
    /// Enter pre-operational → *Pre-operational*.
    EnterPreOperational,
    /// Reset node → re-enter *Initialising* (application + communication).
    ResetNode,
    /// Reset communication → re-enter *Initialising* (communication only).
    ResetCommunication,
}

impl NmtCommand {
    /// The command specifier carried in byte 0 of a node-control frame.
    pub open spec fn specifier(self) -> u8 {
        match self {
            NmtCommand::StartRemoteNode => 0x01,
            NmtCommand::StopRemoteNode => 0x02,
            NmtCommand::EnterPreOperational => 0x80,
            NmtCommand::ResetNode => 0x81,
            NmtCommand::ResetCommunication => 0x82,
        }
    }

    /// The command that a specifier stands for.
    pub open spec fn of_byte(byte: u8) -> Option<NmtCommand> {
        if byte == 0x01 {
            Some(NmtCommand::StartRemoteNode)
        } else if byte == 0x02 {
            Some(NmtCommand::StopRemoteNode)
        } else if byte == 0x80 {
            Some(NmtCommand::EnterPreOperational)
        } else if byte == 0x81 {
            Some(NmtCommand::ResetNode)
        } else if byte == 0x82 {
            Some(NmtCommand::ResetCommunication)
        } else {
            None
        }
    }

    /// A command and its specifier determine each other.
    pub proof fn law_specifier_round_trip(c: NmtCommand, byte: u8)
        ensures
            NmtCommand::of_byte(c.specifier()) == Some(c),
            NmtCommand::of_byte(byte) matches Some(c) ==> c.specifier() == byte,
    {
    }

    /// The command specifier carried in byte 0 of a node-control frame.
    pub fn to_byte(self) -> (byte: u8)
        ensures
            byte == self.specifier(),
    {
        match self {
            NmtCommand::StartRemoteNode => 0x01,
            NmtCommand::StopRemoteNode => 0x02,
            NmtCommand::EnterPreOperational => 0x80,
            NmtCommand::ResetNode => 0x81,
            NmtCommand::ResetCommunication => 0x82,
        }
    }

    /// Decode a command specifier byte.
    ///
    /// Returns [`Error::UnexpectedCommand`] for an unrecognised specifier.
    pub fn from_byte(byte: u8) -> (r: Result<Self>)
        ensures
            r == match NmtCommand::of_byte(byte) {
                Some(c) => Ok(c),
                None => Err(Error::UnexpectedCommand),
            },
    {
        match byte {
            0x01 => Ok(NmtCommand::StartRemoteNode),
            0x02 => Ok(NmtCommand::StopRemoteNode),
            0x80 => Ok(NmtCommand::EnterPreOperational),
            0x81 => Ok(NmtCommand::ResetNode),
            0x82 => Ok(NmtCommand::ResetCommunication),
            _ => Err(Error::UnexpectedCommand),
        }
    }

    /// Whether the command resets the node.
    pub open spec fn is_reset(self) -> bool {
        self == NmtCommand::ResetNode || self == NmtCommand::ResetCommunication
    }
}

/// The 2-byte data field of an NMT node-control frame.
pub type NmtCommandFrame = [u8; 2];

/// The 1-byte data field of a heartbeat / boot-up frame.
pub type HeartbeatFrame = [u8; 1];

/// The boot-up message data field (`0x00`), emitted once when a node leaves
/// initialisation and enters pre-operational.
pub const BOOTUP_FRAME: HeartbeatFrame = [0x00];

/// The data field of a node-control frame: command specifier, then target.
pub open spec fn command_frame(command: NmtCommand, target: u8) -> Seq<u8> {
    seq![command.specifier(), target]
}

/// Encode an NMT node-control frame for `target`.
///
/// Pass [`NodeId::broadcast`] to address every node on the bus at once.
pub fn encode_command(command: NmtCommand, target: NodeId) -> (frame: NmtCommandFrame)
    ensures
        frame@ == command_frame(command, target@),
{
    let frame = [command.to_byte(), target.raw()];
    assert(frame@ =~= command_frame(command, target@));
    frame
}

/// Decode an NMT node-control frame into `(command, target)`.
///
/// A target byte of `0` decodes to [`NodeId::broadcast`]; any other value is a
/// checked device id (`1..=127`), else [`Error::InvalidNodeId`].
pub fn decode_command(frame: &NmtCommandFrame) -> (r: Result<(NmtCommand, NodeId)>)
    ensures
        match NmtCommand::of_byte(frame@[0]) {
            None => r == Err::<(NmtCommand, NodeId), Error>(Error::UnexpectedCommand),
            Some(command) => if frame@[1] > 127 {
                r == Err::<(NmtCommand, NodeId), Error>(Error::InvalidNodeId)
            } else {
                r matches Ok((c, target)) && c == command && target@ == frame@[1]
            },
        },
{
    let command = NmtCommand::from_byte(frame[0])?;
    let target = if frame[1] == 0 {
        NodeId::broadcast()
    } else {
        NodeId::new(frame[1])?
    };
    Ok((command, target))
}

/// A node-control frame decodes to the command and target it was encoded from.
pub proof fn law_command_frame_round_trip(command: NmtCommand, target: u8)
    ensures
        command_frame(command, target).len() == 2,
        NmtCommand::of_byte(command_frame(command, target)[0]) == Some(command),
        command_frame(command, target)[1] == target,
{
}

/// Encode a heartbeat frame reporting `state`.
pub fn encode_heartbeat(state: NmtState) -> (frame: HeartbeatFrame)
    ensures
        frame@ == seq![state.wire()],
{
    let frame = [state.to_wire()];
    assert(frame@ =~= seq![state.wire()]);
    frame
}

/// Decode a heartbeat frame into the reported [`NmtState`].
pub fn decode_heartbeat(frame: &HeartbeatFrame) -> (r: Result<NmtState>)
    ensures
        r == NmtState::of_wire(frame@[0]),
{
    NmtState::from_wire(frame[0])
}

/// The node-guarding byte: the toggle in bit 7, the state in bits 0–6.
pub open spec fn guard_byte(state: NmtState, toggle: bool) -> u8 {
    (state.wire() + if toggle { 0x80int } else { 0 }) as u8
}

/// Encode a **node-guarding** response byte: the alternating toggle bit in bit
/// 7 and the current [`NmtState`] in bits 0–6.
///
/// Node guarding (CiA 301 §7.3.1) is the legacy error-control alternative to
/// heartbeat: the master polls the node with an RTR frame on `0x700 + node` and
/// the node replies with this byte, toggling bit 7 on each reply so lost or
/// duplicated responses are detectable.
pub fn encode_node_guard(state: NmtState, toggle: bool) -> (byte: u8)
    ensures
        byte == guard_byte(state, toggle),
{
    let base: u8 = if toggle {
        0x80
    } else {
        0
    };
    base + state.to_wire()
}

/// Decode a node-guarding response byte into `(toggle, state)`.
pub fn decode_node_guard(byte: u8) -> (r: Result<(bool, NmtState)>)
    ensures
        r == match NmtState::of_wire(byte) {
            Ok(state) => Ok((byte >= 0x80, state)),
            Err(e) => Err(e),
        },
{
    match NmtState::from_wire(byte) {
        Ok(state) => Ok((byte >= 0x80, state)),
        Err(e) => Err(e),
    }
}

/// A heartbeat decodes to the state it reports, and a node-guarding byte to
/// the state and toggle it carries.
pub proof fn law_error_control_round_trip(state: NmtState, toggle: bool)
    ensures
        NmtState::of_wire(state.wire()) == Ok::<NmtState, Error>(state),
        NmtState::of_wire(guard_byte(state, toggle)) == Ok::<NmtState, Error>(state),
        guard_byte(state, toggle) >= 0x80 <==> toggle,
{
}

/// The state that a node in `state` enters on `command`.
///
/// A reset returns to *Initialising* from any state; the other commands are
/// ignored during initialisation and otherwise select the state.
pub open spec fn next_state(state: NmtState, command: NmtCommand) -> NmtState {
    if command.is_reset() || state == NmtState::Initialising {
        NmtState::Initialising
    } else {
        match command {
            NmtCommand::StartRemoteNode => NmtState::Operational,
            NmtCommand::StopRemoteNode => NmtState::Stopped,
            _ => NmtState::PreOperational,
        }
    }
}

/// The state that a node in `state` enters when it completes initialisation.
pub open spec fn booted(state: NmtState) -> NmtState {
    if state == NmtState::Initialising {
        NmtState::PreOperational
    } else {
        state
    }
}

/// A reset leads to *Initialising* from every state, and from there only
/// booting leads on: no command leaves *Initialising*.
pub proof fn law_reset_and_boot(state: NmtState, command: NmtCommand)
    ensures
        command.is_reset() ==> next_state(state, command) == NmtState::Initialising,
        next_state(NmtState::Initialising, command) == NmtState::Initialising,
        booted(NmtState::Initialising) == NmtState::PreOperational,
        state != NmtState::Initialising ==> booted(state) == state,
{
}

/// Repeating a command changes nothing.
pub proof fn law_command_is_idempotent(state: NmtState, command: NmtCommand)
    ensures
        next_state(next_state(state, command), command) == next_state(state, command),
{
}

/// The node-side NMT state machine (CiA 301 §7.3.2).
///
/// Holds only the current state and applies the guarded transitions. It
/// performs no I/O: feed it decoded [`NmtCommand`]s and read back the resulting
/// [`NmtState`] to drive heartbeat production and to gate which services (e.g.
/// PDOs) are active.
#[derive(Debug)]
pub struct NmtStateMachine {
    state: NmtState,
}

impl View for NmtStateMachine {
    type V = NmtState;

    closed spec fn view(&self) -> NmtState {
        self.state
    }
}

impl Default for NmtStateMachine {
    fn default() -> (m: Self)
        ensures
            m@ == NmtState::Initialising,
    {
        Self::new()
    }
}

impl NmtStateMachine {
    /// A freshly powered node, in [`NmtState::Initialising`].
    pub fn new() -> (m: Self)
        ensures
            m@ == NmtState::Initialising,
    {
        Self { state: NmtState::Initialising }
    }

    /// The current state.
    pub fn state(&self) -> (s: NmtState)
        ensures
            s == self@,
    {
        self.state
    }

    /// Complete initialisation: the node enters pre-operational (CiA 301
    /// §7.3.2.1). The caller emits [`BOOTUP_FRAME`] alongside this transition.
    ///
    /// A no-op unless currently initialising.
    pub fn boot(&mut self) -> (s: NmtState)
        ensures
            final(self)@ == booted(old(self)@),
            s == final(self)@,
    {
        if let NmtState::Initialising = self.state {
            self.state = NmtState::PreOperational;
        }
        self.state
    }

    /// Apply an NMT master command, returning the resulting state.
    ///
    /// Transitions are guarded: a reset returns to *Initialising* from any
    /// state, while start/stop/enter-pre-operational are ignored during
    /// initialisation (the node is not yet a network participant) and
    /// otherwise move between the operational states. Repeating a command that
    /// matches the current state is a harmless no-op.
    pub fn apply(&mut self, command: NmtCommand) -> (s: NmtState)
        ensures
            final(self)@ == next_state(old(self)@, command),
            s == final(self)@,
    {
        self.state = match (self.state, command) {
            // Reset re-enters initialisation from any state.
            (_, NmtCommand::ResetNode) | (_, NmtCommand::ResetCommunication) => {
                NmtState::Initialising
            },
            // During initialisation the node ignores operational commands; it
            // leaves this state only via `boot`.
            (NmtState::Initialising, _) => NmtState::Initialising,
            (_, NmtCommand::StartRemoteNode) => NmtState::Operational,
            (_, NmtCommand::StopRemoteNode) => NmtState::Stopped,
            (_, NmtCommand::EnterPreOperational) => NmtState::PreOperational,
        };
        self.state
    }
}

/// Each command has its own target: from every state but *Initialising*, start
/// leads to *Operational*, stop to *Stopped* and enter-pre-operational to
/// *Pre-operational*, whatever the state before. In *Initialising* none of them
/// has an effect, and the two resets lead there from everywhere.
pub proof fn law_commands_select_the_state(state: NmtState)
    ensures
        state != NmtState::Initialising ==> {
            &&& next_state(state, NmtCommand::StartRemoteNode) == NmtState::Operational
            &&& next_state(state, NmtCommand::StopRemoteNode) == NmtState::Stopped
            &&& next_state(state, NmtCommand::EnterPreOperational) == NmtState::PreOperational
        },
        state == NmtState::Initialising ==> {
            &&& next_state(state, NmtCommand::StartRemoteNode) == state
            &&& next_state(state, NmtCommand::StopRemoteNode) == state
            &&& next_state(state, NmtCommand::EnterPreOperational) == state
        },
        next_state(state, NmtCommand::ResetNode) == NmtState::Initialising,
        next_state(state, NmtCommand::ResetCommunication) == NmtState::Initialising,
{
}

/// What stands on the wire: a node-control frame is the command's specifier and
/// the target, and a byte that is no specifier is no command.
pub proof fn law_command_bytes(target: u8, byte: u8)
    ensures
        command_frame(NmtCommand::StartRemoteNode, target) == seq![0x01u8, target],
        command_frame(NmtCommand::StopRemoteNode, target) == seq![0x02u8, target],
        command_frame(NmtCommand::EnterPreOperational, target) == seq![0x80u8, target],
        command_frame(NmtCommand::ResetNode, target) == seq![0x81u8, target],
        command_frame(NmtCommand::ResetCommunication, target) == seq![0x82u8, target],
        NmtCommand::of_byte(byte) is Some <==> byte == 0x01 || byte == 0x02 || byte == 0x80 || byte
            == 0x81 || byte == 0x82,
{
}

/// What a node reports: `0` while it initialises, `4` stopped, `5` operational,
/// `127` pre-operational, in the low seven bits; bit 7 of a node-guarding byte is
/// the toggle. No other byte reports a state.
pub proof fn law_error_control_bytes(byte: u8, toggle: bool)
    ensures
        ({
            let t: int = if toggle {
                128
            } else {
                0
            };
            &&& guard_byte(NmtState::Initialising, toggle) == t
            &&& guard_byte(NmtState::Stopped, toggle) == t + 4
            &&& guard_byte(NmtState::Operational, toggle) == t + 5
            &&& guard_byte(NmtState::PreOperational, toggle) == t + 127
        }),
        NmtState::Initialising.wire() == 0,
        NmtState::Stopped.wire() == 4,
        NmtState::Operational.wire() == 5,
        NmtState::PreOperational.wire() == 127,
        NmtState::of_wire(byte) is Ok <==> byte == 0 || byte == 4 || byte == 5 || byte == 127
            || byte == 128 || byte == 132 || byte == 133 || byte == 255,
        NmtState::of_wire(byte) matches Err(e) ==> e == Error::UnknownState,
{
}

/// Initialisation ends in *Pre-operational*; in any other state there is nothing to
/// complete.
pub proof fn law_boot(state: NmtState)
    ensures
        booted(NmtState::Initialising) == NmtState::PreOperational,
        state != NmtState::Initialising ==> booted(state) == state,
{
}

} // verus!
