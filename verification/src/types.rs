//! The data carried between the supervision core and its callers.

use vstd::prelude::*;

verus! {

/// The two network ports a node listens on.
#[derive(Clone, Copy, Debug, PartialEq, Eq, Structural)]
pub struct NodeConfig {
    pub server_port: u32,
    pub swarm_port: u32,
}

/// Outcome of a lifecycle command, as reported to the presentation layer.
pub struct OperationResult {
    pub success: bool,
    pub message: String,
}

/// One entry of the node listing: identity plus its current status.
pub struct NodeInfo {
    pub name: String,
    pub is_running: bool,
    pub run_on_startup: bool,
    pub node_ports: NodeConfig,
}

/// Failures of the address rewriter.
#[derive(Clone, Copy, Debug, PartialEq, Eq, Structural)]
pub enum AddressError {
    /// The input is not a syntactically valid structured network address.
    Malformed,
    /// The requested port does not fit a 16-bit unsigned port number.
    InvalidPort,
}

/// Failure of the port availability check.
#[derive(Clone, Copy, Debug, PartialEq, Eq, Structural)]
pub enum PortError {
    /// The named port is already bound by some other process.
    InUse(u32),
}

/// Failures of the process supervisor.
#[derive(Debug)]
pub enum NodeError {
    /// The named node is not known.
    NotFound,
    /// A live supervised process already exists under this name.
    AlreadySupervised,
    /// The named port is not free, so the node was not started.
    PortUnavailable(u32),
    /// The operating system could not create the worker process.
    SpawnFailed(String),
    /// The node has no live input channel.
    NotRunning,
    /// The requested new node name already exists on disk.
    NameConflict,
    /// A listen address in the configuration file could not be parsed.
    AddressMalformed,
    /// A requested port does not fit a 16-bit unsigned port number.
    InvalidPort,
    /// The configuration file could not be parsed or re-encoded.
    ConfigIo,
    /// A lock's owning task panicked; the node's state is suspect.
    LockPoisoned,
}

} // verus!
