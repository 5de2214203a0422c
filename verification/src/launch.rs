//! The worker binary's command-line conventions and the event-sink channel
//! naming: the exact argument vectors for first-time setup and for serving,
//! and the per-node output channel name.

use vstd::prelude::*;
use vstd::string::StrSliceExecFns;
use vstd::string::StringExecFns;
use crate::text::dec_rep;
use crate::text::u64_string;

verus! {

/// The channel the event sink is addressed on for one node's output lines.
pub fn output_channel_name(node_name: &String) -> (r: String)
    ensures
        r@ == "node-output-"@ + node_name@,
{
    let mut s = String::from_str("node-output-");
    s.append(node_name.as_str());
    s
}

/// The argument vector of a first-time `init` invocation of the worker
/// binary: node identity, home directory, and the two ports.
pub fn init_args(node_name: &String, home_dir: &String, server_port: u32, swarm_port: u32) -> (r:
    Vec<String>)
    ensures
        r@.len() == 9,
        r@[0]@ == "--node-name"@,
        r@[1]@ == node_name@,
        r@[2]@ == "--home"@,
        r@[3]@ == home_dir@,
        r@[4]@ == "init"@,
        r@[5]@ == "--server-port"@,
        r@[6]@ == dec_rep(server_port as nat),
        r@[7]@ == "--swarm-port"@,
        r@[8]@ == dec_rep(swarm_port as nat),
{
    let mut v: Vec<String> = Vec::new();
    v.push(String::from_str("--node-name"));
    v.push(node_name.clone());
    v.push(String::from_str("--home"));
    v.push(home_dir.clone());
    v.push(String::from_str("init"));
    v.push(String::from_str("--server-port"));
    v.push(u64_string(server_port as u64));
    v.push(String::from_str("--swarm-port"));
    v.push(u64_string(swarm_port as u64));
    v
}

/// The argument vector of a `run` invocation of the worker binary.
pub fn run_args(node_name: &String, home_dir: &String) -> (r: Vec<String>)
    ensures
        r@.len() == 5,
        r@[0]@ == "--node-name"@,
        r@[1]@ == node_name@,
        r@[2]@ == "--home"@,
        r@[3]@ == home_dir@,
        r@[4]@ == "run"@,
{
    let mut v: Vec<String> = Vec::new();
    v.push(String::from_str("--node-name"));
    v.push(node_name.clone());
    v.push(String::from_str("--home"));
    v.push(home_dir.clone());
    v.push(String::from_str("run"));
    v
}

} // verus!
