//! # canopen-rs
//!
//! A CANopen (CiA 301) protocol stack whose behaviour is stated in contracts
//! and proved by Verus.
//!
//! The stack is transport-agnostic: every protocol is a state machine or a
//! codec that consumes and produces frames without touching a bus.
//!
//! # What it implements
//!
//! - **[Object dictionary](object_dictionary)** — typed entries addressed by
//!   `(index, subindex)`, with access control and a compile-time capacity. The
//!   numeric basic types plus the variable-length ones (`VISIBLE_STRING` /
//!   `OCTET_STRING` / `DOMAIN`, see [`ByteString`]). [`StandardObjects`] builds
//!   the mandatory CiA 301 communication objects in one call.
//! - **[SDO](sdo)** — expedited, segmented, and block-transfer codecs, with an
//!   [`SdoServer`] (serves a dictionary) and an [`SdoClient`] (drives
//!   transactions).
//! - **[PDO](pdo)** — mapping model, TPDO pack / RPDO unpack, the predefined
//!   connection set, and transmission types.
//! - **[NMT](nmt)** — the state machine, node-control, heartbeat / boot-up, and
//!   node guarding.
//! - **[SYNC](sync)**, **[EMCY](emcy)** (emergency + error register), and
//!   **[TIME](time)**.
//! - **[LSS](lss)** (CiA 305) — node-id assignment, selective switch, and
//!   [`Fastscan`](lss::FastscanMaster) discovery of an unknown node.
//! - **[`Node`](node)** — bundles all of the above into one frame-driven device
//!   runtime.
//! - **[Host tooling](host)** — EDS/DCF files, source generation, heartbeat
//!   monitoring, and the decisions of a bus transport; [`cli`] holds those of
//!   the command-line tool.
//!
//! # How it is specified
//!
//! Each type has a view, and each operation a function on views that says what
//! it does; the executable code is proved to do that. What several operations
//! guarantee together is stated by the proof functions named `law_…`: that
//! Fastscan finds the exact address of a node, that a read over SDO gives back
//! what was written, that a block transfer delivers its data, and so on.
pub mod buffer;
pub mod cli;
pub mod datatypes;
pub mod display;
pub mod emcy;
pub mod frame;
pub mod host;
pub mod little_endian;
pub mod lss;
pub mod nmt;
pub mod node;
pub mod object_dictionary;
pub mod pdo;
pub mod sdo;
pub mod standard;
pub mod sync;
pub mod text;
pub mod time;
pub mod transport;
pub mod types;

pub use datatypes::{ByteString, DataType, Value, MAX_STRING_LEN};
pub use emcy::{EmergencyMessage, ErrorRegister};
pub use lss::{LssAddress, LssSlave, LssState};
pub use nmt::{NmtCommand, NmtState, NmtStateMachine};
pub use node::{Node, TxFrame};
pub use object_dictionary::{AccessType, Address, Entry, ObjectDictionary};
pub use pdo::{MappingEntry, PdoKind, PdoMapping, TransmissionType};
pub use sdo::{SdoClient, SdoEvent, SdoServer, Segment, SegmentReader, SegmentWriter};
pub use standard::StandardObjects;
pub use sync::SyncCounter;
pub use time::TimeOfDay;
pub use types::{Error, NodeId, Result};
