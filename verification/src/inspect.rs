//! The inspect subscription: a transient, single-target monitor spliced into
//! a graph so that one chosen node's output is observable after execution,
//! without restructuring the rest of the graph.

use vstd::prelude::*;

use crate::executor::{obs_lookup, ExecutorCore};
use crate::graph::{InputList, Network, Node, NodeId, NodeImpl, NodeInput, NodeList, ProtoKind};
use crate::messages::InspectResult;

verus! {

/// Which node is inspected and which monitor node observes it.
#[derive(Clone, Copy, PartialEq, Eq, Structural, Debug)]
pub struct InspectState {
    pub inspect_node: NodeId,
    pub monitor_node: NodeId,
}

/// `inp`, rerouted through the monitor when it takes the target's primary
/// output.
pub open spec fn redirect_edge(target: NodeId, mid: NodeId, inp: NodeInput) -> NodeInput {
    match inp {
        NodeInput::Node { node_id, output_index } => if node_id == target && output_index == 0 {
            NodeInput::Node { node_id: mid, output_index: 0 }
        } else {
            inp
        },
        _ => inp,
    }
}

pub open spec fn redirect_inputs(target: NodeId, mid: NodeId, l: InputList) -> InputList
    decreases l,
{
    match l {
        InputList::Nil => InputList::Nil,
        InputList::Cons(first, rest) => InputList::Cons(
            redirect_edge(target, mid, first),
            Box::new(redirect_inputs(target, mid, *rest)),
        ),
    }
}

/// Reroute every top-level input edge; nested networks are untouched.
pub open spec fn redirect_nodes(target: NodeId, mid: NodeId, nodes: NodeList) -> NodeList
    decreases nodes,
{
    match nodes {
        NodeList::Nil => NodeList::Nil,
        NodeList::Cons(id, node, rest) => NodeList::Cons(
            id,
            Box::new(
                Node {
                    inputs: redirect_inputs(target, mid, node.inputs),
                    implementation: node.implementation,
                },
            ),
            Box::new(redirect_nodes(target, mid, *rest)),
        ),
    }
}

/// A monitor node wired to the target's primary output.
pub open spec fn monitor_node_for(target: NodeId) -> Node {
    Node {
        inputs: InputList::Cons(
            NodeInput::Node { node_id: target, output_index: 0 },
            Box::new(InputList::Nil),
        ),
        implementation: NodeImpl::Proto(ProtoKind::Monitor),
    }
}

/// The graph with a fresh monitor `mid` spliced in downstream of `target`:
/// every edge (exports included) that took the target's primary output now
/// takes the monitor instead, and the monitor takes the target.
pub open spec fn inject_monitor(net: Network, target: NodeId, mid: NodeId) -> Network {
    Network {
        nodes: NodeList::Cons(
            mid,
            Box::new(monitor_node_for(target)),
            Box::new(redirect_nodes(target, mid, net.nodes)),
        ),
        exports: redirect_inputs(target, mid, net.exports),
        input_kind: net.input_kind,
    }
}

fn redirect_edge_exec(target: NodeId, mid: NodeId, inp: NodeInput) -> (r: NodeInput)
    ensures
        r == redirect_edge(target, mid, inp),
{
    match inp {
        NodeInput::Node { node_id, output_index } => {
            if node_id.0 == target.0 && output_index == 0 {
                NodeInput::Node { node_id: mid, output_index: 0 }
            } else {
                inp
            }
        },
        _ => inp,
    }
}

fn redirect_inputs_exec(target: NodeId, mid: NodeId, l: InputList) -> (r: InputList)
    ensures
        r == redirect_inputs(target, mid, l),
    decreases l,
{
    match l {
        InputList::Nil => InputList::Nil,
        InputList::Cons(first, rest) => InputList::Cons(
            redirect_edge_exec(target, mid, first),
            Box::new(redirect_inputs_exec(target, mid, *rest)),
        ),
    }
}

fn redirect_nodes_exec(target: NodeId, mid: NodeId, nodes: NodeList) -> (r: NodeList)
    ensures
        r == redirect_nodes(target, mid, nodes),
    decreases nodes,
{
    match nodes {
        NodeList::Nil => NodeList::Nil,
        NodeList::Cons(id, node, rest) => {
            let inner = *node;
            let rewired = Node {
                inputs: redirect_inputs_exec(target, mid, inner.inputs),
                implementation: inner.implementation,
            };
            NodeList::Cons(id, Box::new(rewired), Box::new(redirect_nodes_exec(target, mid, *rest)))
        },
    }
}

impl InspectState {
    /// Splice a monitor into the graph to manage the inspection of
    /// `inspect_node`. The edges are rerouted before the monitor is inserted,
    /// so the monitor's own input is never rerouted. The splice is owed: it
    /// is withheld (and the graph left unchanged) only when a node already
    /// carries the largest representable id, so that no fresh id exists.
    pub fn monitor_inspect_node(network: &mut Network, inspect_node: NodeId) -> (r: Option<
        InspectState,
    >)
        ensures
            match r {
                Some(st) => {
                    &&& st.inspect_node == inspect_node
                    &&& !old(network).nodes.contains_id(st.monitor_node)
                    &&& *final(network) == inject_monitor(
                        *old(network),
                        inspect_node,
                        st.monitor_node,
                    )
                },
                None => *final(network) == *old(network) && old(network).nodes.contains_id(
                    NodeId(u64::MAX),
                ),
            },
    {
        let mid = match network.nodes.fresh_id() {
            None => {
                return None;
            },
            Some(m) => m,
        };
        let mut nodes = NodeList::Nil;
        core::mem::swap(&mut network.nodes, &mut nodes);
        let redirected = redirect_nodes_exec(inspect_node, mid, nodes);
        let monitor = Node {
            inputs: InputList::Cons(
                NodeInput::Node { node_id: inspect_node, output_index: 0 },
                Box::new(InputList::Nil),
            ),
            implementation: NodeImpl::Proto(ProtoKind::Monitor),
        };
        network.nodes = NodeList::Cons(mid, Box::new(monitor), Box::new(redirected));
        let mut exports = InputList::Nil;
        core::mem::swap(&mut network.exports, &mut exports);
        network.exports = redirect_inputs_exec(inspect_node, mid, exports);
        Some(InspectState { inspect_node, monitor_node: mid })
    }

    /// Resolve the result of the inspection by reading the monitor node.
    /// A failed introspection yields "no value" rather than an error.
    pub fn access(&self, executor: &ExecutorCore) -> (r: Option<InspectResult>)
        ensures
            r == Some(
                InspectResult {
                    inspect_node: self.inspect_node,
                    introspected_data: match executor.program {
                        None => None::<crate::graph::Value>,
                        Some(_) => obs_lookup(executor.observations@, seq![self.monitor_node]),
                    },
                },
            ),
    {
        let path: Vec<NodeId> = vec![self.monitor_node];
        proof {
            assert(path@ =~= seq![self.monitor_node]);
        }
        let introspected_data = match executor.introspect(&path) {
            Ok(v) => Some(v),
            Err(_) => None,
        };
        Some(InspectResult { inspect_node: self.inspect_node, introspected_data })
    }
}

} // verus!
