//! The node registry and the lifecycle decisions of the process supervisor.
//!
//! `NodeManager` is the single source of truth for "is node X currently
//! supervised by this application instance".  The operating-system side of
//! each operation (spawning, killing, probing, the input channel itself) is
//! performed by the shell around this library; the methods here take the
//! observed outcomes as arguments and decide what happens to the registry,
//! so every decision is verified for every possible outcome.

use vstd::prelude::*;
use vstd::string::StringExecFns;
use crate::types::NodeError;

verus! {

/// The supervised state of one node: whether this instance owns a live
/// process handle, whether the input channel sender is still present, and
/// the accumulated cleaned output transcript.
pub struct NodeProcess {
    pub has_process: bool,
    pub has_stdin: bool,
    pub output: String,
}

/// One registry entry: a node name and its supervised state.
pub struct NodeEntry {
    pub name: String,
    pub process: NodeProcess,
}

/// The registry of live node processes, keyed by node name.
pub struct NodeManager {
    pub nodes: Vec<NodeEntry>,
}

/// What the shell must do after `stop_node_process` has updated the registry.
#[derive(Clone, Copy, Debug, PartialEq, Eq, Structural)]
pub enum StopAction {
    /// The node is neither supervised nor running: success with no work.
    NotRunning,
    /// Not supervised here, but an OS-level process with this node's
    /// identity is running: kill it by external means.
    KillExternal,
    /// The entry was removed; attempt a graceful kill of the owned handle
    /// (present when the payload is true), falling back to an external kill.
    Graceful(bool),
}

impl NodeManager {
    /// At most one entry per node name.
    pub open spec fn wf(self) -> bool {
        forall|i: int, j: int|
            0 <= i < j < self.nodes@.len() ==> self.nodes@[i].name@ != self.nodes@[j].name@
    }

    /// Whether a node of this name is currently supervised.
    pub open spec fn has_node(self, name: Seq<char>) -> bool {
        exists|i: int| 0 <= i < self.nodes@.len() && self.nodes@[i].name@ == name
    }

    /// The index of the entry of this name (meaningful when `has_node`).
    pub open spec fn index_of(self, name: Seq<char>) -> int {
        choose|i: int| 0 <= i < self.nodes@.len() && self.nodes@[i].name@ == name
    }

    /// The supervised state of the node of this name (meaningful when
    /// `has_node`).
    pub open spec fn node_at(self, name: Seq<char>) -> NodeProcess {
        self.nodes@[self.index_of(name)].process
    }

    /// In a well-formed registry the entry of a name is unique, so any
    /// index holding the name is the index `index_of` denotes.
    pub proof fn lemma_index_of(self, name: Seq<char>, i: int)
        requires
            self.wf(),
            0 <= i < self.nodes@.len(),
            self.nodes@[i].name@ == name,
        ensures
            self.has_node(name),
            self.index_of(name) == i,
    {
        assert(self.has_node(name));
        let j = self.index_of(name);
        assert(0 <= j < self.nodes@.len() && self.nodes@[j].name@ == name);
    }

    /// An empty registry.
    pub fn new() -> (r: NodeManager)
        ensures
            r.wf(),
            r.nodes@.len() == 0,
    {
        NodeManager { nodes: Vec::new() }
    }

    /// The index of the entry named `node_name`, if one exists.
    fn find_node(&self, node_name: &String) -> (r: Option<usize>)
        ensures
            match r {
                Some(i) => i < self.nodes@.len() && self.nodes@[i as int].name@ == node_name@,
                None => !self.has_node(node_name@),
            },
    {
        let mut i: usize = 0;
        while i < self.nodes.len()
            invariant
                i <= self.nodes@.len(),
                forall|j: int| 0 <= j < i ==> self.nodes@[j].name@ != node_name@,
            decreases self.nodes@.len() - i,
        {
            if self.nodes[i].name == *node_name {
                return Some(i);
            }
            i = i + 1;
        }
        None
    }

    /// Whether a node of this name is currently supervised.
    pub fn contains_node(&self, node_name: &String) -> (r: bool)
        ensures
            r == self.has_node(node_name@),
    {
        match self.find_node(node_name) {
            Some(i) => {
                proof {
                    assert(self.has_node(node_name@));
                }
                true
            },
            None => false,
        }
    }

    /// The registry gate of a start request: a node that is already
    /// supervised is refused, and nothing else is consulted or touched, so
    /// a second start under the same name never disturbs the first process.
    /// On success the shell proceeds to the port check and the spawn, then
    /// registers the node with `register_node`.
    pub fn start_node(&self, node_name: &String) -> (r: Result<(), NodeError>)
        ensures
            self.has_node(node_name@) ==> r == Err::<(), NodeError>(NodeError::AlreadySupervised),
            !self.has_node(node_name@) ==> r == Ok::<(), NodeError>(()),
    {
        if self.contains_node(node_name) {
            Err(NodeError::AlreadySupervised)
        } else {
            Ok(())
        }
    }

    /// Records a freshly spawned process under `node_name`: the handle is
    /// owned, the input channel is live exactly when the process's standard
    /// input was captured, and the transcript starts empty.
    pub fn register_node(&mut self, node_name: String, has_stdin: bool)
        requires
            old(self).wf(),
            !old(self).has_node(node_name@),
        ensures
            final(self).wf(),
            final(self).nodes@.len() == old(self).nodes@.len() + 1,
            final(self).nodes@.subrange(0, old(self).nodes@.len() as int) == old(self).nodes@,
            final(self).nodes@.last().name@ == node_name@,
            final(self).nodes@.last().process.has_process == true,
            final(self).nodes@.last().process.has_stdin == has_stdin,
            final(self).nodes@.last().process.output@ == Seq::<char>::empty(),
            final(self).has_node(node_name@),
            final(self).node_at(node_name@) == final(self).nodes@.last().process,
    {
        let ghost n = self.nodes@.len() as int;
        let entry = NodeEntry {
            name: node_name,
            process: NodeProcess { has_process: true, has_stdin, output: String::new() },
        };
        self.nodes.push(entry);
        proof {
            assert(self.nodes@.subrange(0, n) =~= old(self).nodes@);
            assert forall|i: int, j: int|
                0 <= i < j < self.nodes@.len() implies self.nodes@[i].name@
                != self.nodes@[j].name@ by {
                if j < n {
                } else {
                    assert(!old(self).has_node(self.nodes@[j].name@));
                }
            }
            self.lemma_index_of(self.nodes@.last().name@, n);
        }
    }

    /// The stop decision.  `os_running` reports the OS-level liveness probe
    /// for this node's identity.  A node that is not supervised here is
    /// still killed by external means when such a process is running (for
    /// example one left over from a prior application session); stopping a
    /// node that is nowhere alive is success with no work.  A supervised
    /// node has its entry removed before any kill is attempted.
    pub fn stop_node_process(&mut self, node_name: &String, os_running: bool) -> (r: StopAction)
        requires
            old(self).wf(),
        ensures
            final(self).wf(),
            !old(self).has_node(node_name@) && os_running ==> r == StopAction::KillExternal
                && *final(self) == *old(self),
            !old(self).has_node(node_name@) && !os_running ==> r == StopAction::NotRunning
                && *final(self) == *old(self),
            old(self).has_node(node_name@) ==> r == StopAction::Graceful(
                old(self).node_at(node_name@).has_process,
            ) && final(self).nodes@ == old(self).nodes@.remove(old(self).index_of(node_name@))
                && !final(self).has_node(node_name@),
    {
        match self.find_node(node_name) {
            None => {
                if os_running {
                    StopAction::KillExternal
                } else {
                    StopAction::NotRunning
                }
            },
            Some(i) => {
                proof {
                    self.lemma_index_of(node_name@, i as int);
                }
                let entry = self.nodes.remove(i);
                proof {
                    assert forall|a: int, b: int|
                        0 <= a < b < self.nodes@.len() implies self.nodes@[a].name@
                        != self.nodes@[b].name@ by {
                        let oa = if a < i as int { a } else { a + 1 };
                        let ob = if b < i as int { b } else { b + 1 };
                        assert(self.nodes@[a] == old(self).nodes@[oa]);
                        assert(self.nodes@[b] == old(self).nodes@[ob]);
                    }
                    assert forall|a: int|
                        0 <= a < self.nodes@.len() implies self.nodes@[a].name@
                        != node_name@ by {
                        let oa = if a < i as int { a } else { a + 1 };
                        assert(self.nodes@[a] == old(self).nodes@[oa]);
                    }
                }
                StopAction::Graceful(entry.process.has_process)
            },
        }
    }

    /// The input decision: an unknown name is `NotFound`; a supervised node
    /// without a live input channel is `NotRunning` (its process never had a
    /// standard input, or the writer task already exited); otherwise the
    /// shell enqueues `input` on the node's channel.  The registry is never
    /// changed, and nothing here waits.
    pub fn send_input_to_node(&self, node_name: &String, input: &String) -> (r: Result<
        (),
        NodeError,
    >)
        requires
            self.wf(),
        ensures
            !self.has_node(node_name@) ==> r == Err::<(), NodeError>(NodeError::NotFound),
            self.has_node(node_name@) && !self.node_at(node_name@).has_stdin ==> r == Err::<
                (),
                NodeError,
            >(NodeError::NotRunning),
            self.has_node(node_name@) && self.node_at(node_name@).has_stdin ==> r == Ok::<
                (),
                NodeError,
            >(()),
    {
        let _ = input;
        match self.find_node(node_name) {
            None => Err(NodeError::NotFound),
            Some(i) => {
                proof {
                    self.lemma_index_of(node_name@, i as int);
                }
                if self.nodes[i].process.has_stdin {
                    Ok(())
                } else {
                    Err(NodeError::NotRunning)
                }
            },
        }
    }

    /// Marks the input channel of a node as closed, after the shell has
    /// observed that the writer task exited (a send failed).  Every other
    /// part of the entry, and every other entry, is untouched.
    pub fn close_input(&mut self, node_name: &String)
        requires
            old(self).wf(),
        ensures
            final(self).wf(),
            !old(self).has_node(node_name@) ==> *final(self) == *old(self),
            old(self).has_node(node_name@) ==> {
                let i = old(self).index_of(node_name@);
                &&& final(self).nodes@.len() == old(self).nodes@.len()
                &&& forall|j: int|
                    0 <= j < old(self).nodes@.len() && j != i ==> final(self).nodes@[j] == old(
                        self,
                    ).nodes@[j]
                &&& final(self).nodes@[i].name@ == node_name@
                &&& final(self).nodes@[i].process.has_stdin == false
                &&& final(self).nodes@[i].process.has_process == old(self).nodes@[i].process.has_process
                &&& final(self).nodes@[i].process.output@ == old(self).nodes@[i].process.output@
            },
    {
        match self.find_node(node_name) {
            None => {},
            Some(i) => {
                proof {
                    self.lemma_index_of(node_name@, i as int);
                }
                let mut entry = self.nodes.remove(i);
                entry.process.has_stdin = false;
                self.nodes.insert(i, entry);
                proof {
                    assert(self.nodes@ =~= old(self).nodes@.update(
                        i as int,
                        self.nodes@[i as int],
                    ));
                }
            },
        }
    }

    /// Appends one cleaned output line, plus its newline, to the node's
    /// transcript.  Unknown names report `NotFound`; every other entry is
    /// untouched.
    pub fn append_output(&mut self, node_name: &String, cleaned_line: &String) -> (r: Result<
        (),
        NodeError,
    >)
        requires
            old(self).wf(),
        ensures
            final(self).wf(),
            !old(self).has_node(node_name@) ==> *final(self) == *old(self) && r == Err::<
                (),
                NodeError,
            >(NodeError::NotFound),
            old(self).has_node(node_name@) ==> {
                let i = old(self).index_of(node_name@);
                &&& r == Ok::<(), NodeError>(())
                &&& final(self).nodes@.len() == old(self).nodes@.len()
                &&& forall|j: int|
                    0 <= j < old(self).nodes@.len() && j != i ==> final(self).nodes@[j] == old(
                        self,
                    ).nodes@[j]
                &&& final(self).nodes@[i].name@ == node_name@
                &&& final(self).nodes@[i].process.has_stdin == old(self).nodes@[i].process.has_stdin
                &&& final(self).nodes@[i].process.has_process == old(self).nodes@[i].process.has_process
                &&& final(self).nodes@[i].process.output@ == old(self).nodes@[i].process.output@
                    + cleaned_line@ + seq!['\n']
            },
    {
        match self.find_node(node_name) {
            None => Err(NodeError::NotFound),
            Some(i) => {
                proof {
                    self.lemma_index_of(node_name@, i as int);
                }
                let mut entry = self.nodes.remove(i);
                entry.process.output.append(cleaned_line.as_str());
                entry.process.output.append("\n");
                self.nodes.insert(i, entry);
                proof {
                    reveal_strlit("\n");
                    assert("\n"@ =~= seq!['\n']);
                    assert(self.nodes@ =~= old(self).nodes@.update(
                        i as int,
                        self.nodes@[i as int],
                    ));
                }
                Ok(())
            },
        }
    }

    /// A snapshot copy of the node's transcript: everything fully processed
    /// before this call, and the empty string for a node that has produced
    /// no output yet.  Unknown names report `NotFound`.  The call never
    /// waits for new output.
    pub fn get_node_output(&self, node_name: &String) -> (r: Result<String, NodeError>)
        requires
            self.wf(),
        ensures
            !self.has_node(node_name@) ==> r == Err::<String, NodeError>(NodeError::NotFound),
            self.has_node(node_name@) ==> r is Ok && r->Ok_0@ == self.node_at(node_name@).output@,
    {
        match self.find_node(node_name) {
            None => Err(NodeError::NotFound),
            Some(i) => {
                proof {
                    self.lemma_index_of(node_name@, i as int);
                }
                Ok(self.nodes[i].process.output.clone())
            },
        }
    }
}

} // verus!
