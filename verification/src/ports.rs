//! Port availability decision.  The shell probes the operating system by
//! trying to bind each requested port; this function turns the two probe
//! results into the advisory verdict, naming the first conflicting port.

use vstd::prelude::*;
use crate::types::NodeConfig;
use crate::types::PortError;

verus! {

/// Verdict on whether a node start may proceed.  `server_free` and
/// `swarm_free` report whether the corresponding port of `config` could be
/// bound locally.  The first conflicting port, in the order server then
/// swarm, is named; the probe reserves nothing, so success or failure has
/// no side effect.
pub fn check_ports_availability(config: &NodeConfig, server_free: bool, swarm_free: bool) -> (r:
    Result<(), PortError>)
    ensures
        !server_free ==> r == Err::<(), PortError>(PortError::InUse(config.server_port)),
        server_free && !swarm_free ==> r == Err::<(), PortError>(PortError::InUse(
            config.swarm_port,
        )),
        server_free && swarm_free ==> r == Ok::<(), PortError>(()),
{
    if !server_free {
        Err(PortError::InUse(config.server_port))
    } else if !swarm_free {
        Err(PortError::InUse(config.swarm_port))
    } else {
        Ok(())
    }
}

} // verus!
