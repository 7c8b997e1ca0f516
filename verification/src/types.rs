//! Foundational CANopen types shared across the stack.
use vstd::prelude::*;

verus! {

/// Result alias for fallible operations of this crate.
pub type Result<T> = core::result::Result<T, Error>;

/// Errors surfaced by the protocol core.
#[derive(Debug, Clone, Copy, PartialEq, Eq, Structural)]
#[non_exhaustive]
pub enum Error {
    /// A frame or buffer was too short or too long for the operation.
    BadLength,
    /// A value did not fit the target CANopen data type.
    Overflow,
    /// No object exists at the requested (index, subindex).
    ObjectNotFound,
    /// A node id outside the valid `1..=127` range was supplied.
    InvalidNodeId,
    /// A value too large for an expedited transfer was supplied.
    UnsupportedTransfer,
    /// A value's data type differs from the type of the object it addresses.
    TypeMismatch,
    /// A frame carried an unexpected command specifier.
    UnexpectedCommand,
    /// The object dictionary has no room for another entry.
    DictionaryFull,
    /// The object cannot be read.
    WriteOnly,
    /// The object cannot be written.
    ReadOnly,
    /// A segment arrived with the wrong toggle bit.
    ToggleMismatch,
    /// The CRC of a block transfer did not match its data.
    CrcMismatch,
    /// A heartbeat carried an unknown NMT state.
    UnknownState,
    /// A SYNC counter overflow value is reserved.
    InvalidSyncCounter,
    /// A PDO mapping or a PDO table has no room for another entry.
    MappingFull,
}

impl Error {
    /// The text of [`message`](Error::message).
    pub open spec fn spec_message(self) -> &'static str {
        match self {
            Error::BadLength => "frame or buffer length invalid for operation",
            Error::Overflow => "value does not fit the target CANopen data type",
            Error::ObjectNotFound => "no object at the requested index/subindex",
            Error::InvalidNodeId => "node id out of range (must be 1..=127)",
            Error::UnsupportedTransfer => "value too large for an expedited transfer",
            Error::TypeMismatch => "value type differs from the object's data type",
            Error::UnexpectedCommand => "unexpected command specifier",
            Error::DictionaryFull => "object dictionary is full",
            Error::WriteOnly => "object is write-only",
            Error::ReadOnly => "object is read-only",
            Error::ToggleMismatch => "segment toggle bit did not alternate",
            Error::CrcMismatch => "block transfer CRC mismatch",
            Error::UnknownState => "unknown NMT state",
            Error::InvalidSyncCounter => "SYNC counter overflow value is reserved",
            Error::MappingFull => "PDO mapping is full",
        }
    }

    /// A short description of the error, for display.
    pub fn message(self) -> (msg: &'static str)
        ensures
            msg == self.spec_message(),
    {
        match self {
            Error::BadLength => "frame or buffer length invalid for operation",
            Error::Overflow => "value does not fit the target CANopen data type",
            Error::ObjectNotFound => "no object at the requested index/subindex",
            Error::InvalidNodeId => "node id out of range (must be 1..=127)",
            Error::UnsupportedTransfer => "value too large for an expedited transfer",
            Error::TypeMismatch => "value type differs from the object's data type",
            Error::UnexpectedCommand => "unexpected command specifier",
            Error::DictionaryFull => "object dictionary is full",
            Error::WriteOnly => "object is write-only",
            Error::ReadOnly => "object is read-only",
            Error::ToggleMismatch => "segment toggle bit did not alternate",
            Error::CrcMismatch => "block transfer CRC mismatch",
            Error::UnknownState => "unknown NMT state",
            Error::InvalidSyncCounter => "SYNC counter overflow value is reserved",
            Error::MappingFull => "PDO mapping is full",
        }
    }
}

/// A CANopen node identifier.
///
/// Valid *device* node ids are `1..=127`. The value `0` is reserved for
/// broadcast in NMT and LSS; use [`NodeId::broadcast`] for it and
/// [`NodeId::new`] for a checked device id.
#[derive(Debug, Clone, Copy, PartialEq, Eq, PartialOrd, Ord, Hash, Structural)]
pub struct NodeId(u8);

impl View for NodeId {
    type V = u8;

    closed spec fn view(&self) -> u8 {
        self.0
    }
}

impl NodeId {
    /// A node id is either broadcast (`0`) or a device id (`1..=127`).
    #[verifier::type_invariant]
    closed spec fn in_range(self) -> bool {
        self.0 <= 127
    }

    /// The broadcast node id (`0`), used by NMT and LSS.
    pub fn broadcast() -> (id: NodeId)
        ensures
            id@ == 0,
    {
        NodeId(0)
    }

    /// Create a checked device node id in `1..=127`.
    ///
    /// Returns [`Error::InvalidNodeId`] for `0` or any value above `127`.
    pub fn new(id: u8) -> (r: Result<Self>)
        ensures
            r is Ok <==> 1 <= id <= 127,
            r matches Ok(node) ==> node@ == id,
            r matches Err(e) ==> e == Error::InvalidNodeId,
    {
        if 1 <= id && id <= 127 {
            Ok(NodeId(id))
        } else {
            Err(Error::InvalidNodeId)
        }
    }

    /// The raw node id byte.
    pub fn raw(self) -> (id: u8)
        ensures
            id == self@,
            id <= 127,
    {
        proof {
            use_type_invariant(&self);
        }
        self.0
    }
}

/// What each error says.
pub proof fn law_messages()
    ensures
        Error::BadLength.spec_message() == "frame or buffer length invalid for operation",
        Error::Overflow.spec_message() == "value does not fit the target CANopen data type",
        Error::ObjectNotFound.spec_message() == "no object at the requested index/subindex",
        Error::InvalidNodeId.spec_message() == "node id out of range (must be 1..=127)",
        Error::UnsupportedTransfer.spec_message() == "value too large for an expedited transfer",
        Error::TypeMismatch.spec_message() == "value type differs from the object's data type",
        Error::UnexpectedCommand.spec_message() == "unexpected command specifier",
        Error::DictionaryFull.spec_message() == "object dictionary is full",
        Error::WriteOnly.spec_message() == "object is write-only",
        Error::ReadOnly.spec_message() == "object is read-only",
        Error::ToggleMismatch.spec_message() == "segment toggle bit did not alternate",
        Error::CrcMismatch.spec_message() == "block transfer CRC mismatch",
        Error::UnknownState.spec_message() == "unknown NMT state",
        Error::InvalidSyncCounter.spec_message() == "SYNC counter overflow value is reserved",
        Error::MappingFull.spec_message() == "PDO mapping is full",
{
}

} // verus!
