//! The compiler boundary: lowers a graph value into a compiled program, or
//! reports a structural error. A compiled program is derived
//! deterministically from the graph: the validated network itself, the paths
//! of every monitor node in it, and the fuel bound its evaluation runs under.

use vstd::prelude::*;

use crate::graph::{InputList, Network, Node, NodeId, NodeImpl, NodeInput, NodeList, ProtoKind, ValueKind};

verus! {

/// A structural graph error, fatal to one compile attempt.
#[derive(Clone, Copy, PartialEq, Eq, Structural, Debug)]
pub enum CompileError {
    /// The graph exports nothing.
    NoOutput,
    /// The graph exports more than one output.
    MultipleOutputs,
    /// A node reference, import or arity inside the graph does not resolve.
    InvalidStructure,
    /// The graph is too large for the evaluation fuel bound.
    GraphTooLarge,
}

/// The structural errors collected during one compilation.
pub type GraphErrors = Vec<CompileError>;

/// Type information resolved by a successful compilation.
#[derive(Clone, Copy, PartialEq, Eq, Structural, Debug)]
pub struct TypeInfo {
    /// The type of value the compiled program takes as its input.
    pub input_kind: ValueKind,
}

/// A compiled program: the flattened, executable lowering of a graph.
pub struct CompiledProgram {
    /// The validated network.
    pub network: Network,
    /// The path of every monitor node in the network, in occurrence order.
    pub monitors: Vec<Vec<NodeId>>,
    /// Fuel bound for evaluation: twice the network weight, plus two.
    pub fuel: u64,
    /// The type of value the program takes as its input.
    pub input_kind: ValueKind,
}

/// How many arguments a built-in node kind takes.
pub open spec fn proto_arity(kind: ProtoKind) -> nat {
    match kind {
        ProtoKind::Monitor => 1,
        ProtoKind::Identity => 1,
        ProtoKind::Add => 2,
        ProtoKind::Render => 1,
    }
}

/// One input edge resolves: a node reference targets a primary output that
/// exists at this level, and an import is within the enclosing arity.
pub open spec fn input_ok(nodes: NodeList, arity: nat, inp: NodeInput) -> bool {
    match inp {
        NodeInput::Value(_) => true,
        NodeInput::Import(i) => i < arity,
        NodeInput::Node { node_id, output_index } => output_index == 0 && nodes.contains_id(
            node_id,
        ),
    }
}

pub open spec fn valid_inputs(nodes: NodeList, arity: nat, inps: InputList) -> bool
    decreases inps,
{
    match inps {
        InputList::Nil => true,
        InputList::Cons(first, rest) => input_ok(nodes, arity, first) && valid_inputs(
            nodes,
            arity,
            *rest,
        ),
    }
}

/// A node is valid within its level: its inputs resolve, a built-in kind has
/// its arity, and a nested network is itself valid with one export.
pub open spec fn valid_node(nodes: NodeList, arity: nat, node: Node) -> bool
    decreases node,
{
    valid_inputs(nodes, arity, node.inputs) && match node.implementation {
        NodeImpl::Proto(kind) => node.inputs.seq().len() == proto_arity(kind),
        NodeImpl::Network(sub) => node.inputs.seq().len() <= usize::MAX
            && sub.exports.seq().len() == 1 && valid_network(sub, node.inputs.seq().len()),
    }
}

pub open spec fn valid_nodes(all: NodeList, arity: nat, rem: NodeList) -> bool
    decreases rem,
{
    match rem {
        NodeList::Nil => true,
        NodeList::Cons(_, node, rest) => valid_node(all, arity, *node) && valid_nodes(
            all,
            arity,
            *rest,
        ),
    }
}

/// Every reference, import and arity in the network resolves, node ids are
/// unique, recursively.
pub open spec fn valid_network(net: Network, arity: nat) -> bool
    decreases net,
{
    net.nodes.ids_unique() && valid_nodes(net.nodes, arity, net.nodes) && valid_inputs(
        net.nodes,
        arity,
        net.exports,
    )
}

/// Executable validity check for one input edge.
fn check_input(nodes: &NodeList, arity: usize, inp: &NodeInput) -> (r: bool)
    ensures
        r == input_ok(*nodes, arity as nat, *inp),
{
    match inp {
        NodeInput::Value(_) => true,
        NodeInput::Import(i) => *i < arity,
        NodeInput::Node { node_id, output_index } => {
            if *output_index == 0 {
                let found = nodes.lookup(*node_id);
                proof {
                    nodes.lemma_find_some_iff_contains(*node_id);
                }
                found.is_some()
            } else {
                false
            }
        },
    }
}

fn check_inputs(nodes: &NodeList, arity: usize, inps: &InputList) -> (r: bool)
    ensures
        r == valid_inputs(*nodes, arity as nat, *inps),
    decreases *inps,
{
    match inps {
        InputList::Nil => true,
        InputList::Cons(first, rest) => check_input(nodes, arity, first) && check_inputs(
            nodes,
            arity,
            rest,
        ),
    }
}

fn check_node(nodes: &NodeList, arity: usize, node: &Node) -> (r: bool)
    ensures
        r == valid_node(*nodes, arity as nat, *node),
    decreases *node,
{
    if !check_inputs(nodes, arity, &node.inputs) {
        return false;
    }
    match &node.implementation {
        NodeImpl::Proto(kind) => {
            let arity_wanted: usize = match kind {
                ProtoKind::Monitor => 1,
                ProtoKind::Identity => 1,
                ProtoKind::Add => 2,
                ProtoKind::Render => 1,
            };
            node.inputs.len_is(arity_wanted)
        },
        NodeImpl::Network(sub) => {
            if !sub.exports.len_is(1) {
                return false;
            }
            match input_count(&node.inputs) {
                None => false,
                Some(sub_arity) => check_network_inner(sub, sub_arity),
            }
        },
    }
}

/// Count the input edges, or report that the count does not fit in `usize`.
fn input_count(l: &InputList) -> (r: Option<usize>)
    ensures
        match r {
            Some(n) => n == l.seq().len(),
            None => l.seq().len() > usize::MAX,
        },
    decreases *l,
{
    match l {
        InputList::Nil => Some(0),
        InputList::Cons(_, rest) => match input_count(rest) {
            None => None,
            Some(n) => {
                if n == usize::MAX {
                    None
                } else {
                    Some(n + 1)
                }
            },
        },
    }
}

fn check_nodes(all: &NodeList, arity: usize, rem: &NodeList) -> (r: bool)
    ensures
        r == valid_nodes(*all, arity as nat, *rem),
    decreases *rem,
{
    match rem {
        NodeList::Nil => true,
        NodeList::Cons(_, node, rest) => check_node(all, arity, node) && check_nodes(
            all,
            arity,
            rest,
        ),
    }
}

pub fn check_unique(nodes: &NodeList) -> (r: bool)
    ensures
        r == nodes.ids_unique(),
    decreases *nodes,
{
    match nodes {
        NodeList::Nil => true,
        NodeList::Cons(id, _, rest) => {
            let dup = rest.lookup(*id);
            proof {
                rest.lemma_find_some_iff_contains(*id);
            }
            dup.is_none() && check_unique(rest)
        },
    }
}

fn check_network_inner(net: &Network, arity: usize) -> (r: bool)
    ensures
        r == valid_network(*net, arity as nat),
    decreases *net,
{
    check_unique(&net.nodes) && check_nodes(&net.nodes, arity, &net.nodes) && check_inputs(
        &net.nodes,
        arity,
        &net.exports,
    )
}

/// Executable validity check for a whole network against an input arity.
pub fn check_network(net: &Network, arity: usize) -> (r: bool)
    ensures
        r == valid_network(*net, arity as nat),
{
    check_network_inner(net, arity)
}

/// The weight of a node arena: one per node, counting nested levels.
pub open spec fn nodes_weight(nodes: NodeList) -> nat
    decreases nodes,
{
    match nodes {
        NodeList::Nil => 0,
        NodeList::Cons(_, node, rest) => 1 + (match node.implementation {
            NodeImpl::Proto(_) => 0,
            NodeImpl::Network(sub) => nodes_weight(sub.nodes),
        }) + nodes_weight(*rest),
    }
}

/// The fuel a compiled program evaluates under.
pub open spec fn fuel_policy(net: Network) -> nat {
    2 * nodes_weight(net.nodes) + 2
}

/// Compute the weight, or report that it does not fit in a `u64`.
pub fn compute_weight(nodes: &NodeList) -> (r: Option<u64>)
    ensures
        match r {
            Some(w) => w == nodes_weight(*nodes),
            None => nodes_weight(*nodes) > u64::MAX,
        },
    decreases *nodes,
{
    match nodes {
        NodeList::Nil => Some(0),
        NodeList::Cons(_, node, rest) => {
            let inner: u64 = match &node.implementation {
                NodeImpl::Proto(_) => 0,
                NodeImpl::Network(sub) => {
                    match compute_weight(&sub.nodes) {
                        None => {
                            return None;
                        },
                        Some(w) => w,
                    }
                },
            };
            let tail: u64 = match compute_weight(rest) {
                None => {
                    return None;
                },
                Some(w) => w,
            };
            if tail <= u64::MAX - 1 && inner <= u64::MAX - 1 - tail {
                Some(1 + inner + tail)
            } else {
                None
            }
        },
    }
}

/// Two path collections hold the same paths in the same order.
pub open spec fn paths_match(actual: Seq<Vec<NodeId>>, expected: Seq<Seq<NodeId>>) -> bool {
    actual.len() == expected.len() && forall|i: int|
        0 <= i < actual.len() ==> (#[trigger] actual[i])@ == expected[i]
}

/// The paths of all monitor nodes below `prefix`, in occurrence order:
/// for each node, first the monitors of its nested network, then the node
/// itself if it is a monitor.
pub open spec fn monitor_paths(prefix: Seq<NodeId>, nodes: NodeList) -> Seq<Seq<NodeId>>
    decreases nodes,
{
    match nodes {
        NodeList::Nil => Seq::empty(),
        NodeList::Cons(id, node, rest) => {
            let inner = match node.implementation {
                NodeImpl::Proto(_) => Seq::<Seq<NodeId>>::empty(),
                NodeImpl::Network(sub) => monitor_paths(prefix.push(id), sub.nodes),
            };
            let own = if node.implementation == NodeImpl::Proto(ProtoKind::Monitor) {
                seq![prefix.push(id)]
            } else {
                Seq::<Seq<NodeId>>::empty()
            };
            inner + own + monitor_paths(prefix, *rest)
        },
    }
}

/// Copy a node path.
pub fn copy_path(path: &Vec<NodeId>) -> (r: Vec<NodeId>)
    ensures
        r@ == path@,
{
    let mut out: Vec<NodeId> = Vec::new();
    let mut i: usize = 0;
    while i < path.len()
        invariant
            0 <= i <= path.len(),
            out@ == path@.take(i as int),
        decreases path.len() - i,
    {
        out.push(path[i]);
        proof {
            assert(out@ =~= path@.take(i + 1));
        }
        i += 1;
    }
    proof {
        assert(out@ =~= path@);
    }
    out
}

/// Monitor paths contributed by a nested network of node `id`.
pub open spec fn inner_monitor_paths(prefix: Seq<NodeId>, id: NodeId, node: Node) -> Seq<
    Seq<NodeId>,
> {
    match node.implementation {
        NodeImpl::Proto(_) => Seq::empty(),
        NodeImpl::Network(sub) => monitor_paths(prefix.push(id), sub.nodes),
    }
}

/// The path of node `id` itself, when it is a monitor.
pub open spec fn own_monitor_path(prefix: Seq<NodeId>, id: NodeId, node: Node) -> Seq<
    Seq<NodeId>,
> {
    if node.implementation == NodeImpl::Proto(ProtoKind::Monitor) {
        seq![prefix.push(id)]
    } else {
        Seq::empty()
    }
}

fn collect_monitor_paths(nodes: &NodeList, prefix: &mut Vec<NodeId>, out: &mut Vec<Vec<NodeId>>)
    ensures
        final(prefix)@ == old(prefix)@,
        final(out)@.len() == old(out)@.len() + monitor_paths(old(prefix)@, *nodes).len(),
        forall|k: int| 0 <= k < old(out)@.len() ==> final(out)@[k] == old(out)@[k],
        forall|k: int|
            0 <= k < monitor_paths(old(prefix)@, *nodes).len() ==> (#[trigger] final(out)@[old(
                out,
            )@.len() + k])@ == monitor_paths(old(prefix)@, *nodes)[k],
    decreases *nodes,
{
    match nodes {
        NodeList::Nil => {},
        NodeList::Cons(id, node, rest) => {
            let ghost p0 = prefix@;
            let ghost out0 = out@;
            let ghost inner = inner_monitor_paths(p0, *id, **node);
            let ghost own = own_monitor_path(p0, *id, **node);
            let ghost rest_paths = monitor_paths(p0, **rest);
            proof {
                assert(monitor_paths(p0, *nodes) == inner + own + rest_paths);
            }
            match &node.implementation {
                NodeImpl::Network(sub) => {
                    prefix.push(*id);
                    collect_monitor_paths(&sub.nodes, prefix, out);
                    prefix.pop();
                    proof {
                        assert(prefix@ =~= p0);
                        assert(own =~= Seq::<Seq<NodeId>>::empty());
                    }
                },
                NodeImpl::Proto(kind) => {
                    proof {
                        assert(inner =~= Seq::<Seq<NodeId>>::empty());
                    }
                    if matches!(kind, ProtoKind::Monitor) {
                        prefix.push(*id);
                        let p = copy_path(prefix);
                        out.push(p);
                        prefix.pop();
                        proof {
                            assert(prefix@ =~= p0);
                            assert(out@ =~= out0.push(p));
                        }
                    } else {
                        proof {
                            assert(own =~= Seq::<Seq<NodeId>>::empty());
                        }
                    }
                },
            }
            let ghost out1 = out@;
            proof {
                assert(out1.len() == out0.len() + inner.len() + own.len());
                assert(forall|k: int| 0 <= k < out0.len() ==> out1[k] == out0[k]);
                assert(forall|k: int|
                    0 <= k < inner.len() + own.len() ==> ((#[trigger] out1[out0.len() + k])@
                        == (inner + own)[k]));
            }
            collect_monitor_paths(rest, prefix, out);
            proof {
                let total = monitor_paths(p0, *nodes);
                assert forall|k: int| 0 <= k < total.len() implies (#[trigger] out@[out0.len()
                    + k])@ == total[k] by {
                    if k < inner.len() + own.len() {
                        assert(out@[out0.len() + k] == out1[out0.len() + k]);
                        assert(total[k] == (inner + own)[k]);
                    } else {
                        assert(out@[out1.len() + (k - inner.len() - own.len())]@ == rest_paths[k
                            - inner.len() - own.len()]);
                        assert(total[k] == rest_paths[k - inner.len() - own.len()]);
                    }
                }
            }
        },
    }
}

/// Enumerate the paths of all monitor nodes in a network.
pub fn enumerate_monitor_paths(net: &Network) -> (r: Vec<Vec<NodeId>>)
    ensures
        paths_match(r@, monitor_paths(Seq::empty(), net.nodes)),
{
    let mut prefix: Vec<NodeId> = Vec::new();
    let mut out: Vec<Vec<NodeId>> = Vec::new();
    collect_monitor_paths(&net.nodes, &mut prefix, &mut out);
    proof {
        let total = monitor_paths(Seq::empty(), net.nodes);
        assert forall|i: int| 0 <= i < out@.len() implies (#[trigger] out@[i])@ == total[i] by {
            assert(out@[0 + i]@ == total[i]);
        }
    }
    out
}

/// Compile a graph value: reject it for a structural error, or produce the
/// compiled program. Exactly the graphs with one export, fully resolving
/// structure, and a representable weight compile.
pub fn compile(net: Network) -> (r: Result<CompiledProgram, CompileError>)
    ensures
        match r {
            Ok(prog) => {
                &&& net.exports.seq().len() == 1
                &&& valid_network(net, 1)
                &&& fuel_policy(net) <= u64::MAX
                &&& prog.network == net
                &&& prog.fuel == fuel_policy(net)
                &&& prog.input_kind == net.input_kind
                &&& paths_match(prog.monitors@, monitor_paths(Seq::empty(), net.nodes))
            },
            Err(CompileError::NoOutput) => net.exports.seq().len() == 0,
            Err(CompileError::MultipleOutputs) => net.exports.seq().len() > 1,
            Err(CompileError::InvalidStructure) => net.exports.seq().len() == 1 && !valid_network(
                net,
                1,
            ),
            Err(CompileError::GraphTooLarge) => net.exports.seq().len() == 1 && valid_network(
                net,
                1,
            ) && fuel_policy(net) > u64::MAX,
        },
{
    if net.exports.len_is(0) {
        return Err(CompileError::NoOutput);
    }
    if !net.exports.len_is(1) {
        return Err(CompileError::MultipleOutputs);
    }
    if !check_network(&net, 1) {
        return Err(CompileError::InvalidStructure);
    }
    let weight = match compute_weight(&net.nodes) {
        None => {
            return Err(CompileError::GraphTooLarge);
        },
        Some(w) => w,
    };
    if weight > (u64::MAX - 2) / 2 {
        return Err(CompileError::GraphTooLarge);
    }
    let fuel = 2 * weight + 2;
    let monitors = enumerate_monitor_paths(&net);
    let input_kind = net.input_kind;
    Ok(CompiledProgram { network: net, monitors, fuel, input_kind })
}

} // verus!
