//! Host-side tooling on top of the protocol core: device description files,
//! source generation, heartbeat monitoring, and the decisions of a bus
//! transport.
pub mod codegen;
pub mod eds;
pub mod nmt;
pub mod transport;
