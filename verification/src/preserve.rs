//! Monitor injection is semantics-preserving: a graph whose edges have been
//! rerouted through zero-effect monitor nodes produces the same values as the
//! original, position for position.
//!
//! `inst_rel` relates a graph to any monitored rewrite of it: each edge is
//! either kept or rerouted through a fresh monitor that takes the original
//! edge, and nested networks are related recursively. Both the inspect
//! subscription and the full instrumentation harness produce graphs in this
//! relation.

use vstd::prelude::*;

use crate::graph::{InputList, Network, Node, NodeId, NodeImpl, NodeInput, NodeList, ProtoKind};
use crate::inspect::{inject_monitor, monitor_node_for, redirect_inputs, redirect_nodes};
use crate::semantics::{apply_proto, eval_input, eval_inputs, eval_node, evals_to, lemma_eval_input_mono, node_evals_to};

verus! {

/// A node reference resolves at this level.
pub open spec fn edge_bound(nodes: NodeList, e: NodeInput) -> bool {
    match e {
        NodeInput::Node { node_id, output_index } => nodes.contains_id(node_id),
        _ => true,
    }
}

pub open spec fn edges_bound(nodes: NodeList, l: InputList) -> bool
    decreases l,
{
    match l {
        InputList::Nil => true,
        InputList::Cons(first, rest) => edge_bound(nodes, first) && edges_bound(nodes, *rest),
    }
}

pub open spec fn nodes_refs_bound(all: NodeList, rem: NodeList) -> bool
    decreases rem,
{
    match rem {
        NodeList::Nil => true,
        NodeList::Cons(_, node, rest) => edges_bound(all, node.inputs) && (match node.implementation {
            NodeImpl::Proto(_) => true,
            NodeImpl::Network(sub) => refs_bound(sub),
        }) && nodes_refs_bound(all, *rest),
    }
}

/// Every node reference in the network resolves, at every level.
pub open spec fn refs_bound(net: Network) -> bool
    decreases net,
{
    nodes_refs_bound(net.nodes, net.nodes) && edges_bound(net.nodes, net.exports)
}

/// An edge of the rewrite is the original edge, or the original edge routed
/// through a fresh monitor node of the rewrite.
pub open spec fn inst_edge(olds: NodeList, news: NodeList, e: NodeInput, e2: NodeInput) -> bool {
    ||| e2 == e
    ||| (match e2 {
        NodeInput::Node { node_id: m, output_index } => {
            &&& output_index == 0
            &&& !olds.contains_id(m)
            &&& news.find(m) == Some(
                Node {
                    inputs: InputList::Cons(e, Box::new(InputList::Nil)),
                    implementation: NodeImpl::Proto(ProtoKind::Monitor),
                },
            )
        },
        _ => false,
    })
}

pub open spec fn inst_inputs(olds: NodeList, news: NodeList, l: InputList, l2: InputList) -> bool
    decreases l,
{
    match (l, l2) {
        (InputList::Nil, InputList::Nil) => true,
        (InputList::Cons(e, rest), InputList::Cons(e2, rest2)) => inst_edge(olds, news, e, e2)
            && inst_inputs(olds, news, *rest, *rest2),
        _ => false,
    }
}

/// The rewrite of one node: related edges, and the same work (recursively
/// related for a nested network).
pub open spec fn inst_node(olds: NodeList, news: NodeList, n: Node, n2: Node) -> bool
    decreases n,
{
    inst_inputs(olds, news, n.inputs, n2.inputs) && (match (n.implementation, n2.implementation) {
        (NodeImpl::Proto(p1), NodeImpl::Proto(p2)) => p1 == p2,
        (NodeImpl::Network(s1), NodeImpl::Network(s2)) => inst_rel(s1, s2),
        _ => false,
    })
}

pub open spec fn inst_nodes(olds: NodeList, news: NodeList, rem: NodeList) -> bool
    decreases rem,
{
    match rem {
        NodeList::Nil => true,
        NodeList::Cons(id, node, rest) => (match news.find(id) {
            Some(n2) => inst_node(olds, news, *node, n2),
            None => false,
        }) && inst_nodes(olds, news, *rest),
    }
}

/// `net2` is a monitored rewrite of `net`.
pub open spec fn inst_rel(net: Network, net2: Network) -> bool
    decreases net,
{
    &&& inst_nodes(net.nodes, net2.nodes, net.nodes)
    &&& inst_inputs(net.nodes, net2.nodes, net.exports, net2.exports)
    &&& net2.input_kind == net.input_kind
}

/// Finding a bound node in the original finds its rewrite in the rewrite.
pub proof fn lemma_find_inst(olds: NodeList, news: NodeList, rem: NodeList, id: NodeId, n: Node)
    requires
        inst_nodes(olds, news, rem),
        rem.find(id) == Some(n),
    ensures
        news.find(id) is Some,
        inst_node(olds, news, n, news.find(id).unwrap()),
    decreases rem,
{
    match rem {
        NodeList::Nil => {},
        NodeList::Cons(bound, node, rest) => {
            if bound == id {
            } else {
                lemma_find_inst(olds, news, *rest, id, n);
            }
        },
    }
}

/// A found node sits below its list in the datatype ordering.
pub proof fn lemma_find_height(nodes: NodeList, id: NodeId, n: Node)
    requires
        nodes.find(id) == Some(n),
    ensures
        decreases_to!(nodes => n),
    decreases nodes,
{
    match nodes {
        NodeList::Nil => {},
        NodeList::Cons(bound, node, rest) => {
            if bound == id {
                assert(decreases_to!(nodes => *node));
            } else {
                lemma_find_height(*rest, id, n);
                assert(decreases_to!(nodes => *rest));
            }
        },
    }
}

// ---------------------------------------------------------------------------
// Completeness: a value the original produces, the rewrite produces too,
// given twice the fuel plus one (each rerouted edge costs one extra monitor
// hop).
// ---------------------------------------------------------------------------

/// An original edge evaluated inside the rewrite.
pub proof fn lemma_complete_edge(
    net: Network,
    net2: Network,
    env: Seq<crate::graph::Value>,
    e: NodeInput,
    f: nat,
    g: nat,
    v: crate::graph::Value,
)
    requires
        inst_rel(net, net2),
        eval_input(net, env, e, f) == Some(v),
        g >= 2 * f,
    ensures
        eval_input(net2, env, e, g) == Some(v),
    decreases f, net, 0int, 0int,
{
    match e {
        NodeInput::Value(_) => {},
        NodeInput::Import(_) => {},
        NodeInput::Node { node_id, output_index } => {
            lemma_complete_node(net, net2, env, node_id, (f - 1) as nat, (g - 1) as nat, v);
        },
    }
}

/// A rerouted edge evaluated inside the rewrite.
pub proof fn lemma_complete_mon_edge(
    net: Network,
    net2: Network,
    env: Seq<crate::graph::Value>,
    e: NodeInput,
    e2: NodeInput,
    f: nat,
    g: nat,
    v: crate::graph::Value,
)
    requires
        inst_rel(net, net2),
        inst_edge(net.nodes, net2.nodes, e, e2),
        eval_input(net, env, e, f) == Some(v),
        g >= 2 * f + 1,
    ensures
        eval_input(net2, env, e2, g) == Some(v),
    decreases f, net, 1int, 0int,
{
    if e2 == e {
        lemma_complete_edge(net, net2, env, e, f, g, v);
    } else {
        match e2 {
            NodeInput::Node { node_id: m, output_index } => {
                // One hop into the monitor, then the original edge.
                let monitor = net2.nodes.find(m).unwrap();
                lemma_complete_edge(net, net2, env, e, f, (g - 1) as nat, v);
                let args = Seq::<crate::graph::Value>::empty().insert(0, v);
                assert(eval_inputs(net2, env, InputList::Nil, (g - 1) as nat) == Some(
                    Seq::<crate::graph::Value>::empty(),
                ));
                assert(eval_inputs(net2, env, monitor.inputs, (g - 1) as nat) == Some(args));
                assert(args.len() == 1);
                assert(apply_proto(ProtoKind::Monitor, args) == Some(v));
                assert(eval_node(net2, env, m, (g - 1) as nat) == Some(v));
            },
            _ => {},
        }
    }
}

pub proof fn lemma_complete_inputs(
    net: Network,
    net2: Network,
    env: Seq<crate::graph::Value>,
    l: InputList,
    l2: InputList,
    f: nat,
    g: nat,
    args: Seq<crate::graph::Value>,
)
    requires
        inst_rel(net, net2),
        inst_inputs(net.nodes, net2.nodes, l, l2),
        eval_inputs(net, env, l, f) == Some(args),
        g >= 2 * f + 1,
    ensures
        eval_inputs(net2, env, l2, g) == Some(args),
    decreases f, net, 2int, l.seq().len() as int,
{
    match (l, l2) {
        (InputList::Nil, InputList::Nil) => {},
        (InputList::Cons(e, rest), InputList::Cons(e2, rest2)) => {
            let v = eval_input(net, env, e, f).unwrap();
            lemma_complete_mon_edge(net, net2, env, e, e2, f, g, v);
            let vs = eval_inputs(net, env, *rest, f).unwrap();
            lemma_complete_inputs(net, net2, env, *rest, *rest2, f, g, vs);
        },
        _ => {},
    }
}

pub proof fn lemma_complete_node(
    net: Network,
    net2: Network,
    env: Seq<crate::graph::Value>,
    x: NodeId,
    f: nat,
    g: nat,
    v: crate::graph::Value,
)
    requires
        inst_rel(net, net2),
        eval_node(net, env, x, f) == Some(v),
        g >= 2 * f + 1,
    ensures
        eval_node(net2, env, x, g) == Some(v),
    decreases f, net, 3int, 0int,
{
    let n = net.nodes.find(x).unwrap();
    lemma_find_inst(net.nodes, net2.nodes, net.nodes, x, n);
    lemma_find_height(net.nodes, x, n);
    assert(decreases_to!(net => net.nodes));
    let n2 = net2.nodes.find(x).unwrap();
    let args = eval_inputs(net, env, n.inputs, f).unwrap();
    lemma_complete_inputs(net, net2, env, n.inputs, n2.inputs, f, g, args);
    match (n.implementation, n2.implementation) {
        (NodeImpl::Proto(p1), NodeImpl::Proto(p2)) => {},
        (NodeImpl::Network(s1), NodeImpl::Network(s2)) => {
            assert(decreases_to!(n => s1));
            lemma_inst_inputs_same_len(s1.nodes, s2.nodes, s1.exports, s2.exports);
            lemma_complete_mon_edge(
                s1,
                s2,
                args,
                s1.exports.seq()[0],
                s2.exports.seq()[0],
                f,
                g,
                v,
            );
        },
        _ => {},
    }
}

/// Related input lists have the same length, and related edges pointwise.
pub proof fn lemma_inst_inputs_same_len(
    olds: NodeList,
    news: NodeList,
    l: InputList,
    l2: InputList,
)
    requires
        inst_inputs(olds, news, l, l2),
    ensures
        l2.seq().len() == l.seq().len(),
        forall|k: int|
            0 <= k < l.seq().len() ==> inst_edge(olds, news, l.seq()[k], #[trigger] l2.seq()[k]),
    decreases l,
{
    match (l, l2) {
        (InputList::Nil, InputList::Nil) => {},
        (InputList::Cons(e, rest), InputList::Cons(e2, rest2)) => {
            lemma_inst_inputs_same_len(olds, news, *rest, *rest2);
            assert forall|k: int| 0 <= k < l.seq().len() implies inst_edge(
                olds,
                news,
                l.seq()[k],
                #[trigger] l2.seq()[k],
            ) by {
                if k > 0 {
                    assert(l.seq()[k] == rest.seq()[k - 1]);
                    assert(l2.seq()[k] == rest2.seq()[k - 1]);
                }
            }
        },
        _ => {},
    }
}

// ---------------------------------------------------------------------------
// Soundness: a value the rewrite produces, the original produces too, with
// the same fuel. Needs every node reference of the original to resolve, so
// that no original edge accidentally names a monitor.
// ---------------------------------------------------------------------------

pub proof fn lemma_sound_edge(
    net: Network,
    net2: Network,
    env: Seq<crate::graph::Value>,
    e: NodeInput,
    f: nat,
    v: crate::graph::Value,
)
    requires
        inst_rel(net, net2),
        refs_bound(net),
        edge_bound(net.nodes, e),
        eval_input(net2, env, e, f) == Some(v),
    ensures
        eval_input(net, env, e, f) == Some(v),
    decreases f, net, 0int, 0int,
{
    match e {
        NodeInput::Value(_) => {},
        NodeInput::Import(_) => {},
        NodeInput::Node { node_id, output_index } => {
            lemma_sound_node(net, net2, env, node_id, (f - 1) as nat, v);
        },
    }
}

pub proof fn lemma_sound_mon_edge(
    net: Network,
    net2: Network,
    env: Seq<crate::graph::Value>,
    e: NodeInput,
    e2: NodeInput,
    f: nat,
    v: crate::graph::Value,
)
    requires
        inst_rel(net, net2),
        refs_bound(net),
        edge_bound(net.nodes, e),
        inst_edge(net.nodes, net2.nodes, e, e2),
        eval_input(net2, env, e2, f) == Some(v),
    ensures
        eval_input(net, env, e, f) == Some(v),
    decreases f, net, 1int, 0int,
{
    if e2 == e {
        lemma_sound_edge(net, net2, env, e, f, v);
    } else {
        match e2 {
            NodeInput::Node { node_id: m, output_index } => {
                let monitor = net2.nodes.find(m).unwrap();
                assert(eval_node(net2, env, m, (f - 1) as nat) == Some(v));
                let args = eval_inputs(net2, env, monitor.inputs, (f - 1) as nat).unwrap();
                assert(eval_input(net2, env, e, (f - 1) as nat) == Some(args[0]));
                assert(args.len() == 1);
                assert(apply_proto(ProtoKind::Monitor, args) == Some(args[0]));
                lemma_sound_edge(net, net2, env, e, (f - 1) as nat, args[0]);
                lemma_eval_input_mono(net, env, e, (f - 1) as nat, f);
            },
            _ => {},
        }
    }
}

pub proof fn lemma_sound_inputs(
    net: Network,
    net2: Network,
    env: Seq<crate::graph::Value>,
    l: InputList,
    l2: InputList,
    f: nat,
    args: Seq<crate::graph::Value>,
)
    requires
        inst_rel(net, net2),
        refs_bound(net),
        edges_bound(net.nodes, l),
        inst_inputs(net.nodes, net2.nodes, l, l2),
        eval_inputs(net2, env, l2, f) == Some(args),
    ensures
        eval_inputs(net, env, l, f) == Some(args),
    decreases f, net, 2int, l.seq().len() as int,
{
    match (l, l2) {
        (InputList::Nil, InputList::Nil) => {},
        (InputList::Cons(e, rest), InputList::Cons(e2, rest2)) => {
            let v = eval_input(net2, env, e2, f).unwrap();
            lemma_sound_mon_edge(net, net2, env, e, e2, f, v);
            let vs = eval_inputs(net2, env, *rest2, f).unwrap();
            lemma_sound_inputs(net, net2, env, *rest, *rest2, f, vs);
        },
        _ => {},
    }
}

pub proof fn lemma_sound_node(
    net: Network,
    net2: Network,
    env: Seq<crate::graph::Value>,
    x: NodeId,
    f: nat,
    v: crate::graph::Value,
)
    requires
        inst_rel(net, net2),
        refs_bound(net),
        net.nodes.contains_id(x),
        eval_node(net2, env, x, f) == Some(v),
    ensures
        eval_node(net, env, x, f) == Some(v),
    decreases f, net, 3int, 0int,
{
    net.nodes.lemma_find_some_iff_contains(x);
    let n = net.nodes.find(x).unwrap();
    lemma_find_inst(net.nodes, net2.nodes, net.nodes, x, n);
    lemma_find_height(net.nodes, x, n);
    assert(decreases_to!(net => net.nodes));
    let n2 = net2.nodes.find(x).unwrap();
    lemma_node_facts_from_refs_bound(net.nodes, net.nodes, x, n);
    let args = eval_inputs(net2, env, n2.inputs, f).unwrap();
    lemma_sound_inputs(net, net2, env, n.inputs, n2.inputs, f, args);
    match (n.implementation, n2.implementation) {
        (NodeImpl::Proto(p1), NodeImpl::Proto(p2)) => {},
        (NodeImpl::Network(s1), NodeImpl::Network(s2)) => {
            assert(decreases_to!(n => s1));
            lemma_inst_inputs_same_len(s1.nodes, s2.nodes, s1.exports, s2.exports);
            if s2.exports.seq().len() == 1 {
                lemma_edges_bound_index(s1.nodes, s1.exports, 0);
                lemma_sound_mon_edge(
                    s1,
                    s2,
                    args,
                    s1.exports.seq()[0],
                    s2.exports.seq()[0],
                    f,
                    v,
                );
            }
        },
        _ => {},
    }
}

/// A bound node's edges resolve and its nested network is itself bound.
pub proof fn lemma_node_facts_from_refs_bound(all: NodeList, rem: NodeList, id: NodeId, n: Node)
    requires
        nodes_refs_bound(all, rem),
        rem.find(id) == Some(n),
    ensures
        edges_bound(all, n.inputs),
        match n.implementation {
            NodeImpl::Proto(_) => true,
            NodeImpl::Network(sub) => refs_bound(sub),
        },
    decreases rem,
{
    match rem {
        NodeList::Nil => {},
        NodeList::Cons(bound, node, rest) => {
            if bound == id {
            } else {
                lemma_node_facts_from_refs_bound(all, *rest, id, n);
            }
        },
    }
}

/// Each edge of a bound list is bound.
pub proof fn lemma_edges_bound_index(nodes: NodeList, l: InputList, k: int)
    requires
        edges_bound(nodes, l),
        0 <= k < l.seq().len(),
    ensures
        edge_bound(nodes, l.seq()[k]),
    decreases l,
{
    match l {
        InputList::Nil => {},
        InputList::Cons(e, rest) => {
            if k > 0 {
                assert(l.seq()[k] == rest.seq()[k - 1]);
                lemma_edges_bound_index(nodes, *rest, k - 1);
            }
        },
    }
}

// ---------------------------------------------------------------------------
// The preservation laws.
// ---------------------------------------------------------------------------

/// Monitor injection is semantics-preserving: evaluating a related edge of
/// the rewrite yields exactly the values of the original edge, for any graph
/// whose references resolve and any input. With one export on each side,
/// this says the instrumented graph's output is bit-identical to the
/// original's.
pub proof fn lemma_instrumented_edge_preserves(
    net: Network,
    net2: Network,
    env: Seq<crate::graph::Value>,
    e: NodeInput,
    e2: NodeInput,
    v: crate::graph::Value,
)
    requires
        inst_rel(net, net2),
        refs_bound(net),
        edge_bound(net.nodes, e),
        inst_edge(net.nodes, net2.nodes, e, e2),
    ensures
        evals_to(net, env, e, v) <==> evals_to(net2, env, e2, v),
{
    if evals_to(net, env, e, v) {
        let f = choose|f: nat| eval_input(net, env, e, f) == Some(v);
        lemma_complete_mon_edge(net, net2, env, e, e2, f, 2 * f + 1, v);
    }
    if evals_to(net2, env, e2, v) {
        let f = choose|f: nat| eval_input(net2, env, e2, f) == Some(v);
        lemma_sound_mon_edge(net, net2, env, e, e2, f, v);
    }
}

/// The output of a monitored rewrite equals the output of the original:
/// the exported values are the same, for any input environment.
pub proof fn lemma_instrumentation_preserves_output(
    net: Network,
    net2: Network,
    env: Seq<crate::graph::Value>,
    v: crate::graph::Value,
)
    requires
        inst_rel(net, net2),
        refs_bound(net),
        net.exports.seq().len() == 1,
    ensures
        net2.exports.seq().len() == 1,
        evals_to(net, env, net.exports.seq()[0], v) <==> evals_to(
            net2,
            env,
            net2.exports.seq()[0],
            v,
        ),
{
    lemma_inst_inputs_same_len(net.nodes, net2.nodes, net.exports, net2.exports);
    lemma_edges_bound_index(net.nodes, net.exports, 0);
    lemma_instrumented_edge_preserves(
        net,
        net2,
        env,
        net.exports.seq()[0],
        net2.exports.seq()[0],
        v,
    );
}


// ---------------------------------------------------------------------------
// The inspect-subscription splice is a monitored rewrite.
// ---------------------------------------------------------------------------

pub proof fn lemma_inst_inputs_refl(olds: NodeList, news: NodeList, l: InputList)
    ensures
        inst_inputs(olds, news, l, l),
    decreases l,
{
    match l {
        InputList::Nil => {},
        InputList::Cons(e, rest) => {
            lemma_inst_inputs_refl(olds, news, *rest);
        },
    }
}

/// Every nested network below this arena has unique node ids.
pub open spec fn nets_unique(rem: NodeList) -> bool
    decreases rem, 0int,
{
    match rem {
        NodeList::Cons(_, node, rest) => (match node.implementation {
            NodeImpl::Proto(_) => true,
            NodeImpl::Network(sub) => unique_network(sub),
        }) && nets_unique(*rest),
        NodeList::Nil => true,
    }
}

/// Node ids are unique at every level of the network.
pub open spec fn unique_network(net: Network) -> bool
    decreases net, 1int,
{
    net.nodes.ids_unique() && nets_unique(net.nodes)
}

/// A graph with unique ids is a monitored rewrite of itself.
pub proof fn lemma_inst_rel_refl(net: Network)
    requires
        unique_network(net),
    ensures
        inst_rel(net, net),
    decreases net, 2int,
{
    lemma_inst_nodes_refl(net.nodes, net.nodes);
    lemma_inst_inputs_refl(net.nodes, net.nodes, net.exports);
}

pub proof fn lemma_inst_nodes_refl(all: NodeList, rem: NodeList)
    requires
        rem.ids_unique(),
        nets_unique(rem),
        forall|id: NodeId| (#[trigger] rem.find(id)) is Some ==> all.find(id) == rem.find(id),
    ensures
        inst_nodes(all, all, rem),
    decreases rem, 3int,
{
    match rem {
        NodeList::Nil => {},
        NodeList::Cons(id, node, rest) => {
            assert(rem.find(id) == Some(*node));
            assert(all.find(id) == Some(*node));
            lemma_inst_node_refl(all, *node);
            assert forall|id2: NodeId| (#[trigger] rest.find(id2)) is Some implies all.find(id2)
                == rest.find(id2) by {
                rest.lemma_find_some_iff_contains(id2);
                assert(id2 != id);
                assert(rem.find(id2) == rest.find(id2));
            }
            lemma_inst_nodes_refl(all, *rest);
        },
    }
}

pub proof fn lemma_inst_node_refl(all: NodeList, n: Node)
    requires
        match n.implementation {
            NodeImpl::Proto(_) => true,
            NodeImpl::Network(sub) => unique_network(sub),
        },
    ensures
        inst_node(all, all, n, n),
    decreases n, 3int,
{
    lemma_inst_inputs_refl(all, all, n.inputs);
    match n.implementation {
        NodeImpl::Proto(_) => {},
        NodeImpl::Network(sub) => {
            lemma_inst_rel_refl(sub);
        },
    }
}

/// The edge-rerouting rewrite of one node.
pub open spec fn redirected_node(target: NodeId, mid: NodeId, n: Node) -> Node {
    Node { inputs: redirect_inputs(target, mid, n.inputs), implementation: n.implementation }
}

/// `find` through the edge-rerouting rewrite of a node arena.
pub proof fn lemma_find_redirect(target: NodeId, mid: NodeId, nodes: NodeList, id: NodeId)
    ensures
        match nodes.find(id) {
            None => redirect_nodes(target, mid, nodes).find(id) is None,
            Some(n) => redirect_nodes(target, mid, nodes).find(id) == Some(
                redirected_node(target, mid, n),
            ),
        },
    decreases nodes,
{
    match nodes {
        NodeList::Nil => {},
        NodeList::Cons(bound, node, rest) => {
            if bound != id {
                lemma_find_redirect(target, mid, *rest, id);
            }
        },
    }
}

pub proof fn lemma_redirect_inputs_inst(
    olds: NodeList,
    news: NodeList,
    target: NodeId,
    mid: NodeId,
    l: InputList,
)
    requires
        !olds.contains_id(mid),
        news.find(mid) == Some(monitor_node_for(target)),
    ensures
        inst_inputs(olds, news, l, redirect_inputs(target, mid, l)),
    decreases l,
{
    match l {
        InputList::Nil => {},
        InputList::Cons(e, rest) => {
            lemma_redirect_inputs_inst(olds, news, target, mid, *rest);
        },
    }
}

pub proof fn lemma_redirect_nodes_inst(
    olds: NodeList,
    news: NodeList,
    target: NodeId,
    mid: NodeId,
    rem: NodeList,
)
    requires
        !olds.contains_id(mid),
        news.find(mid) == Some(monitor_node_for(target)),
        rem.ids_unique(),
        nets_unique(rem),
        forall|id: NodeId|
            (#[trigger] rem.find(id)) is Some ==> news.find(id) == Some(
                redirected_node(target, mid, rem.find(id).unwrap()),
            ),
    ensures
        inst_nodes(olds, news, rem),
    decreases rem, 4int,
{
    match rem {
        NodeList::Nil => {},
        NodeList::Cons(id, node, rest) => {
            assert(rem.find(id) == Some(*node));
            assert(news.find(id) == Some(redirected_node(target, mid, *node)));
            lemma_redirect_inputs_inst(olds, news, target, mid, node.inputs);
            match node.implementation {
                NodeImpl::Proto(_) => {},
                NodeImpl::Network(sub) => {
                    lemma_inst_rel_refl(sub);
                },
            }
            assert(inst_node(olds, news, *node, redirected_node(target, mid, *node)));
            assert forall|id2: NodeId| (#[trigger] rest.find(id2)) is Some implies news.find(id2)
                == Some(redirected_node(target, mid, rest.find(id2).unwrap())) by {
                rest.lemma_find_some_iff_contains(id2);
                assert(id2 != id);
                assert(rem.find(id2) == rest.find(id2));
            }
            lemma_redirect_nodes_inst(olds, news, target, mid, *rest);
        },
    }
}

/// The inspect-subscription splice produces a monitored rewrite.
pub proof fn lemma_inject_monitor_inst_rel(net: Network, target: NodeId, mid: NodeId)
    requires
        !net.nodes.contains_id(mid),
        unique_network(net),
    ensures
        inst_rel(net, inject_monitor(net, target, mid)),
{
    let net2 = inject_monitor(net, target, mid);
    assert(net2.nodes.find(mid) == Some(monitor_node_for(target)));
    assert forall|id: NodeId| (#[trigger] net.nodes.find(id)) is Some implies net2.nodes.find(id)
        == Some(redirected_node(target, mid, net.nodes.find(id).unwrap())) by {
        net.nodes.lemma_find_some_iff_contains(id);
        assert(id != mid);
        lemma_find_redirect(target, mid, net.nodes, id);
    }
    lemma_redirect_nodes_inst(net.nodes, net2.nodes, target, mid, net.nodes);
    lemma_redirect_inputs_inst(net.nodes, net2.nodes, target, mid, net.exports);
}

// ---------------------------------------------------------------------------
// The inspect subscription reads its target's true output.
// ---------------------------------------------------------------------------

/// The injected monitor's output equals the inspected node's output in the
/// original graph, for any input environment: what the subscription reads
/// after an execution is the target's true value.
pub proof fn lemma_inspect_monitor_observes_target(
    net: Network,
    target: NodeId,
    mid: NodeId,
    env: Seq<crate::graph::Value>,
    v: crate::graph::Value,
)
    requires
        !net.nodes.contains_id(mid),
        unique_network(net),
        refs_bound(net),
        net.nodes.contains_id(target),
    ensures
        node_evals_to(inject_monitor(net, target, mid), env, mid, v) <==> node_evals_to(
            net,
            env,
            target,
            v,
        ),
{
    let net2 = inject_monitor(net, target, mid);
    lemma_inject_monitor_inst_rel(net, target, mid);
    let monitor = monitor_node_for(target);
    assert(net2.nodes.find(mid) == Some(monitor));
    let e = NodeInput::Node { node_id: target, output_index: 0 };

    if node_evals_to(net, env, target, v) {
        let f = choose|f: nat| eval_node(net, env, target, f) == Some(v);
        lemma_complete_node(net, net2, env, target, f, 2 * f + 1, v);
        let g = (2 * f + 2) as nat;
        assert(eval_input(net2, env, e, g) == Some(v));
        let args = Seq::<crate::graph::Value>::empty().insert(0, v);
        assert(eval_inputs(net2, env, InputList::Nil, g) == Some(
            Seq::<crate::graph::Value>::empty(),
        ));
        assert(eval_inputs(net2, env, monitor.inputs, g) == Some(args));
        assert(apply_proto(ProtoKind::Monitor, args) == Some(v));
        assert(eval_node(net2, env, mid, g) == Some(v));
    }
    if node_evals_to(net2, env, mid, v) {
        let f = choose|f: nat| eval_node(net2, env, mid, f) == Some(v);
        let args = eval_inputs(net2, env, monitor.inputs, f).unwrap();
        assert(eval_input(net2, env, e, f) == Some(args[0]));
        assert(args.len() == 1);
        assert(v == args[0]);
        assert(eval_node(net2, env, target, (f - 1) as nat) == Some(v));
        lemma_sound_node(net, net2, env, target, (f - 1) as nat, v);
    }
}

// ---------------------------------------------------------------------------
// Structural validity gives resolving references.
// ---------------------------------------------------------------------------

pub proof fn lemma_valid_edges_bound(nodes: NodeList, arity: nat, l: InputList)
    requires
        crate::compile::valid_inputs(nodes, arity, l),
    ensures
        edges_bound(nodes, l),
    decreases l,
{
    match l {
        InputList::Nil => {},
        InputList::Cons(_, rest) => {
            lemma_valid_edges_bound(nodes, arity, *rest);
        },
    }
}

pub proof fn lemma_valid_nodes_refs_bound(all: NodeList, arity: nat, rem: NodeList)
    requires
        crate::compile::valid_nodes(all, arity, rem),
    ensures
        nodes_refs_bound(all, rem),
        nets_unique(rem),
    decreases rem, 1int,
{
    match rem {
        NodeList::Nil => {},
        NodeList::Cons(_, node, rest) => {
            assert(crate::compile::valid_node(all, arity, *node));
            lemma_valid_edges_bound(all, arity, node.inputs);
            match node.implementation {
                NodeImpl::Proto(_) => {},
                NodeImpl::Network(sub) => {
                    lemma_valid_refs_bound(sub, node.inputs.seq().len());
                },
            }
            lemma_valid_nodes_refs_bound(all, arity, *rest);
        },
    }
}

/// A structurally valid graph has resolving references and unique ids at
/// every level.
pub proof fn lemma_valid_refs_bound(net: Network, arity: nat)
    requires
        crate::compile::valid_network(net, arity),
    ensures
        refs_bound(net),
        unique_network(net),
    decreases net, 2int,
{
    lemma_valid_nodes_refs_bound(net.nodes, arity, net.nodes);
    lemma_valid_edges_bound(net.nodes, arity, net.exports);
}

} // verus!
