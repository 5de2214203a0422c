//! Supervision core for externally managed worker processes ("nodes"):
//! it decides when a node may start, tracks the registry of live nodes,
//! rewrites the transport ports inside a node's configuration, cleans the
//! combined output stream, and answers lifecycle queries.  All I/O (spawning,
//! pipes, files, sockets) is performed by a thin shell around this library,
//! which feeds the observed outcomes back into the verified decision logic.

pub mod address;
pub mod config;
pub mod launch;
pub mod output;
pub mod ports;
pub mod supervisor;
pub mod text;
pub mod types;
