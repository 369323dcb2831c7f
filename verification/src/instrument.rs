//! The instrumentation harness: insert a monitor node on every input edge of
//! every node, recursively inside nested sub-graphs, and index the monitors
//! by node-type name and by exact path for later queries.

use vstd::prelude::*;

use crate::executor::obs_lookup;
use crate::graph::{InputList, Network, Node, NodeId, NodeImpl, NodeInput, NodeList, ProtoKind, Value};
use crate::preserve::{inst_inputs, inst_nodes, inst_rel};
use crate::runtime::NodeRuntime;

verus! {

/// A monitor node observing `e`.
pub open spec fn monitor_of(e: NodeInput) -> Node {
    Node {
        inputs: InputList::Cons(e, Box::new(InputList::Nil)),
        implementation: NodeImpl::Proto(ProtoKind::Monitor),
    }
}

/// The largest id bound at one level, as a mathematical value.
pub open spec fn spec_max_id(nodes: NodeList) -> int
    decreases nodes,
{
    match nodes {
        NodeList::Nil => -1,
        NodeList::Cons(id, _, rest) => if id.0 >= spec_max_id(*rest) {
            id.0 as int
        } else {
            spec_max_id(*rest)
        },
    }
}

pub proof fn lemma_spec_max_id(nodes: NodeList)
    requires
        nodes is Cons,
    ensures
        nodes.contains_id(NodeId(spec_max_id(nodes) as u64)),
        forall|id: NodeId| #[trigger] nodes.contains_id(id) ==> id.0 <= spec_max_id(nodes),
        0 <= spec_max_id(nodes) <= u64::MAX,
    decreases nodes,
{
    match nodes {
        NodeList::Nil => {},
        NodeList::Cons(id, _, rest) => {
            let m = spec_max_id(nodes);
            match *rest {
                NodeList::Nil => {
                    assert(spec_max_id(*rest) == -1);
                    assert(m == id.0);
                    assert(nodes.contains_id(NodeId(id.0)));
                    assert forall|q: NodeId| #[trigger] nodes.contains_id(q) implies q.0 <= m by {
                        assert(!rest.contains_id(q));
                    }
                },
                NodeList::Cons(_, _, _) => {
                    lemma_spec_max_id(*rest);
                    if id.0 >= spec_max_id(*rest) {
                        assert(m == id.0);
                        assert(nodes.contains_id(NodeId(id.0)));
                    } else {
                        assert(m == spec_max_id(*rest));
                        assert(rest.contains_id(NodeId(m as u64)));
                    }
                    assert forall|q: NodeId| #[trigger] nodes.contains_id(q) implies q.0 <= m by {
                        if q != id {
                            assert(rest.contains_id(q));
                        }
                    }
                },
            }
        },
    }
}

/// How many input edges one level's nodes carry in all.
pub open spec fn level_edge_count(nodes: NodeList) -> nat
    decreases nodes,
{
    match nodes {
        NodeList::Nil => 0,
        NodeList::Cons(_, node, rest) => node.inputs.seq().len() + level_edge_count(*rest),
    }
}

pub open spec fn subnets_instrumentable(nodes: NodeList) -> bool
    decreases nodes, 0int,
{
    match nodes {
        NodeList::Nil => true,
        NodeList::Cons(_, node, rest) => (match node.implementation {
            NodeImpl::Proto(_) => true,
            NodeImpl::Network(sub) => instrumentable(sub),
        }) && subnets_instrumentable(*rest),
    }
}

/// The graphs the harness accepts: node ids are unique at every level, and
/// every level has enough id space above its largest id for one fresh
/// monitor per input edge.
pub open spec fn instrumentable(net: Network) -> bool
    decreases net, 1int,
{
    &&& net.nodes.ids_unique()
    &&& spec_max_id(net.nodes) + 1 + level_edge_count(net.nodes) <= u64::MAX
    &&& subnets_instrumentable(net.nodes)
}

/// Every input edge rerouted through a monitor bound in `mons`.
pub open spec fn harness_inputs(
    olds: NodeList,
    mons: NodeList,
    l: InputList,
    l2: InputList,
) -> bool
    decreases l,
{
    match (l, l2) {
        (InputList::Nil, InputList::Nil) => true,
        (InputList::Cons(e, rest), InputList::Cons(e2, rest2)) => (match e2 {
            NodeInput::Node { node_id: m, output_index } => {
                &&& output_index == 0
                &&& !olds.contains_id(m)
                &&& mons.find(m) == Some(monitor_of(e))
            },
            _ => false,
        }) && harness_inputs(olds, mons, *rest, *rest2),
        _ => false,
    }
}

/// One node and its instrumented rewrite.
pub open spec fn harness_node(olds: NodeList, mons: NodeList, n: Node, n2: Node) -> bool
    decreases n,
{
    harness_inputs(olds, mons, n.inputs, n2.inputs) && (match (n.implementation, n2.implementation) {
        (NodeImpl::Proto(p1), NodeImpl::Proto(p2)) => p1 == p2,
        (NodeImpl::Network(s1), NodeImpl::Network(s2)) => harness_rel(s1, s2),
        _ => false,
    })
}

/// A node arena and its instrumented rewrite: same ids in the same order.
pub open spec fn harness_nodes(
    olds: NodeList,
    mons: NodeList,
    rem: NodeList,
    rem2: NodeList,
) -> bool
    decreases rem,
{
    match (rem, rem2) {
        (NodeList::Nil, NodeList::Nil) => true,
        (NodeList::Cons(id, n, rest), NodeList::Cons(id2, n2, rest2)) => id2 == id && harness_node(
            olds,
            mons,
            *n,
            *n2,
        ) && harness_nodes(olds, mons, *rest, *rest2),
        _ => false,
    }
}

/// One node and its rewrite inside the assembled graph: every input edge
/// rerouted through a fresh monitor of the rewrite, the same work, nested
/// networks instrumented in turn.
pub open spec fn monitored_node(olds: NodeList, news: NodeList, n: Node, n2: Node) -> bool
    decreases n,
{
    harness_inputs(olds, news, n.inputs, n2.inputs) && (match (n.implementation, n2.implementation) {
        (NodeImpl::Proto(p1), NodeImpl::Proto(p2)) => p1 == p2,
        (NodeImpl::Network(s1), NodeImpl::Network(s2)) => harness_rel(s1, s2),
        _ => false,
    })
}

pub open spec fn monitored_nodes(olds: NodeList, news: NodeList, rem: NodeList) -> bool
    decreases rem,
{
    match rem {
        NodeList::Nil => true,
        NodeList::Cons(id, node, rest) => (match news.find(id) {
            Some(n2) => monitored_node(olds, news, *node, n2),
            None => false,
        }) && monitored_nodes(olds, news, *rest),
    }
}

/// `net2` is `net` with a monitor on every input edge of every node,
/// recursively inside nested sub-graphs; the exports are untouched. This is
/// the full instrumentation rewrite (unlike the looser [`inst_rel`], which
/// the identity rewrite also satisfies).
pub open spec fn harness_rel(net: Network, net2: Network) -> bool
    decreases net,
{
    &&& monitored_nodes(net.nodes, net2.nodes, net.nodes)
    &&& net2.exports == net.exports
    &&& net2.input_kind == net.input_kind
}

/// Concatenation of node arenas.
pub open spec fn append_nodes(a: NodeList, b: NodeList) -> NodeList
    decreases a,
{
    match a {
        NodeList::Nil => b,
        NodeList::Cons(id, n, rest) => NodeList::Cons(id, n, Box::new(append_nodes(*rest, b))),
    }
}

fn append_nodes_exec(a: NodeList, b: NodeList) -> (r: NodeList)
    ensures
        r == append_nodes(a, b),
    decreases a,
{
    match a {
        NodeList::Nil => b,
        NodeList::Cons(id, n, rest) => NodeList::Cons(id, n, Box::new(append_nodes_exec(*rest, b))),
    }
}

pub proof fn lemma_find_append(a: NodeList, b: NodeList, id: NodeId)
    ensures
        append_nodes(a, b).find(id) == if a.contains_id(id) {
            a.find(id)
        } else {
            b.find(id)
        },
        append_nodes(a, b).contains_id(id) == (a.contains_id(id) || b.contains_id(id)),
    decreases a,
{
    match a {
        NodeList::Nil => {},
        NodeList::Cons(bound, _, rest) => {
            lemma_find_append(*rest, b, id);
            a.lemma_find_some_iff_contains(id);
        },
    }
}

/// Related arenas bind the same ids.
pub proof fn lemma_harness_same_ids(olds: NodeList, mons: NodeList, rem: NodeList, rem2: NodeList)
    requires
        harness_nodes(olds, mons, rem, rem2),
    ensures
        forall|id: NodeId| rem.contains_id(id) == #[trigger] rem2.contains_id(id),
    decreases rem,
{
    match (rem, rem2) {
        (NodeList::Cons(id, n, rest), NodeList::Cons(id2, n2, rest2)) => {
            lemma_harness_same_ids(olds, mons, *rest, *rest2);
            assert forall|q: NodeId| rem.contains_id(q) == #[trigger] rem2.contains_id(q) by {
                assert(rest.contains_id(q) == rest2.contains_id(q));
            }
        },
        _ => {},
    }
}

/// `find` through related arenas.
pub proof fn lemma_harness_find(
    olds: NodeList,
    mons: NodeList,
    rem: NodeList,
    rem2: NodeList,
    id: NodeId,
    n: Node,
)
    requires
        harness_nodes(olds, mons, rem, rem2),
        rem.find(id) == Some(n),
    ensures
        rem2.find(id) is Some,
        harness_node(olds, mons, n, rem2.find(id).unwrap()),
    decreases rem,
{
    match (rem, rem2) {
        (NodeList::Cons(bound, node, rest), NodeList::Cons(bound2, node2, rest2)) => {
            if bound != id {
                lemma_harness_find(olds, mons, *rest, *rest2, id, n);
            }
        },
        _ => {},
    }
}

/// `harness_inputs` holds of any arena whose `find` agrees with `mons` on
/// the monitors used.
pub proof fn lemma_harness_inputs_mono(
    olds: NodeList,
    mons: NodeList,
    big: NodeList,
    l: InputList,
    l2: InputList,
)
    requires
        harness_inputs(olds, mons, l, l2),
        forall|m: NodeId| (#[trigger] mons.find(m)) is Some ==> big.find(m) == mons.find(m),
    ensures
        harness_inputs(olds, big, l, l2),
    decreases l,
{
    match (l, l2) {
        (InputList::Cons(e, rest), InputList::Cons(e2, rest2)) => {
            lemma_harness_inputs_mono(olds, mons, big, *rest, *rest2);
        },
        _ => {},
    }
}

pub proof fn lemma_harness_nodes_mono(
    olds: NodeList,
    mons: NodeList,
    big: NodeList,
    rem: NodeList,
    rem2: NodeList,
)
    requires
        harness_nodes(olds, mons, rem, rem2),
        forall|m: NodeId| (#[trigger] mons.find(m)) is Some ==> big.find(m) == mons.find(m),
    ensures
        harness_nodes(olds, big, rem, rem2),
    decreases rem,
{
    match (rem, rem2) {
        (NodeList::Cons(id, n, rest), NodeList::Cons(id2, n2, rest2)) => {
            lemma_harness_inputs_mono(olds, mons, big, n.inputs, n2.inputs);
            lemma_harness_nodes_mono(olds, mons, big, *rest, *rest2);
        },
        _ => {},
    }
}

/// Left part of an appended arena keeps its bindings.
pub proof fn lemma_append_keeps_left(a: NodeList, b: NodeList)
    ensures
        forall|m: NodeId| (#[trigger] a.find(m)) is Some ==> append_nodes(a, b).find(m) == a.find(
            m,
        ),
{
    assert forall|m: NodeId| (#[trigger] a.find(m)) is Some implies append_nodes(a, b).find(m)
        == a.find(m) by {
        a.lemma_find_some_iff_contains(m);
        lemma_find_append(a, b, m);
    }
}

/// Right part of an appended arena keeps its bindings when the left part
/// does not shadow them.
pub proof fn lemma_append_keeps_right(a: NodeList, b: NodeList)
    requires
        forall|m: NodeId| #[trigger] b.contains_id(m) ==> !a.contains_id(m),
    ensures
        forall|m: NodeId| (#[trigger] b.find(m)) is Some ==> append_nodes(a, b).find(m) == b.find(
            m,
        ),
{
    assert forall|m: NodeId| (#[trigger] b.find(m)) is Some implies append_nodes(a, b).find(m)
        == b.find(m) by {
        b.lemma_find_some_iff_contains(m);
        lemma_find_append(a, b, m);
    }
}

/// Lift the constructive harness relation, stated against the monitor
/// arena alone, to the assembled network.
pub proof fn lemma_harness_monitored_nodes(
    olds: NodeList,
    mons: NodeList,
    t: NodeList,
    news: NodeList,
    rem: NodeList,
)
    requires
        harness_nodes(olds, mons, olds, t),
        rem.ids_unique(),
        forall|id: NodeId| (#[trigger] rem.find(id)) is Some ==> olds.find(id) == rem.find(id),
        forall|id: NodeId| (#[trigger] t.find(id)) is Some ==> news.find(id) == t.find(id),
        forall|m: NodeId| (#[trigger] mons.find(m)) is Some ==> news.find(m) == mons.find(m),
    ensures
        monitored_nodes(olds, news, rem),
    decreases rem,
{
    match rem {
        NodeList::Nil => {},
        NodeList::Cons(id, node, rest) => {
            assert(rem.find(id) == Some(*node));
            assert(olds.find(id) == Some(*node));
            lemma_harness_find(olds, mons, olds, t, id, *node);
            let n2 = t.find(id).unwrap();
            assert(news.find(id) == Some(n2));
            assert(harness_node(olds, mons, *node, n2));
            lemma_harness_inputs_mono(olds, mons, news, node.inputs, n2.inputs);
            assert(monitored_node(olds, news, *node, n2));
            assert forall|id2: NodeId| (#[trigger] rest.find(id2)) is Some implies olds.find(id2)
                == rest.find(id2) by {
                rest.lemma_find_some_iff_contains(id2);
                assert(id2 != id);
                assert(rem.find(id2) == rest.find(id2));
            }
            lemma_harness_monitored_nodes(olds, mons, t, news, *rest);
        },
    }
}

/// The full instrumentation rewrite is in particular a monitored rewrite.
pub proof fn lemma_monitored_inputs_inst(
    olds: NodeList,
    news: NodeList,
    l: InputList,
    l2: InputList,
)
    requires
        harness_inputs(olds, news, l, l2),
    ensures
        inst_inputs(olds, news, l, l2),
    decreases l, 0int,
{
    match (l, l2) {
        (InputList::Cons(e, rest), InputList::Cons(e2, rest2)) => {
            lemma_monitored_inputs_inst(olds, news, *rest, *rest2);
        },
        _ => {},
    }
}

pub proof fn lemma_monitored_nodes_inst(olds: NodeList, news: NodeList, rem: NodeList)
    requires
        monitored_nodes(olds, news, rem),
    ensures
        inst_nodes(olds, news, rem),
    decreases rem, 2int,
{
    match rem {
        NodeList::Nil => {},
        NodeList::Cons(id, node, rest) => {
            let n2 = news.find(id).unwrap();
            assert(monitored_node(olds, news, *node, n2));
            lemma_monitored_inputs_inst(olds, news, node.inputs, n2.inputs);
            match (node.implementation, n2.implementation) {
                (NodeImpl::Network(s1), NodeImpl::Network(s2)) => {
                    lemma_harness_rel_inst(s1, s2);
                },
                _ => {},
            }
            assert(crate::preserve::inst_node(olds, news, *node, n2));
            lemma_monitored_nodes_inst(olds, news, *rest);
        },
    }
}

pub proof fn lemma_harness_rel_inst(net: Network, net2: Network)
    requires
        harness_rel(net, net2),
    ensures
        inst_rel(net, net2),
    decreases net, 1int,
{
    lemma_monitored_nodes_inst(net.nodes, net2.nodes, net.nodes);
    crate::preserve::lemma_inst_inputs_refl(net.nodes, net2.nodes, net.exports);
}

/// One record of the harness: an executable node's kind, its exact path,
/// and the ordered paths of the monitors on its inputs.
pub struct IndexEntry {
    pub kind: ProtoKind,
    pub path: Seq<NodeId>,
    pub monitors: Seq<Seq<NodeId>>,
}

/// The monitor paths of `k` consecutively numbered monitors below `prefix`.
pub open spec fn monitor_paths_from(prefix: Seq<NodeId>, counter: int, k: nat) -> Seq<Seq<NodeId>>
    decreases k,
{
    if k == 0 {
        Seq::empty()
    } else {
        seq![prefix.push(NodeId(counter as u64))] + monitor_paths_from(
            prefix,
            counter + 1,
            (k - 1) as nat,
        )
    }
}

pub proof fn lemma_monitor_paths_from_len(prefix: Seq<NodeId>, counter: int, k: nat)
    ensures
        monitor_paths_from(prefix, counter, k).len() == k,
    decreases k,
{
    if k > 0 {
        lemma_monitor_paths_from_len(prefix, counter + 1, (k - 1) as nat);
    }
}

/// Every executable node the harness indexes below `prefix`, in traversal
/// order (a nested network's nodes before the wrapping node's own inputs),
/// with monitors numbered from `counter` on within each level.
pub open spec fn harvest(prefix: Seq<NodeId>, nodes: NodeList, counter: int) -> Seq<IndexEntry>
    decreases nodes,
{
    match nodes {
        NodeList::Nil => Seq::empty(),
        NodeList::Cons(id, node, rest) => (match node.implementation {
            NodeImpl::Network(sub) => harvest(
                prefix.push(id),
                sub.nodes,
                spec_max_id(sub.nodes) + 1,
            ),
            NodeImpl::Proto(_) => Seq::empty(),
        }) + (match node.implementation {
            NodeImpl::Proto(kind) => seq![
                IndexEntry {
                    kind,
                    path: prefix.push(id),
                    monitors: monitor_paths_from(prefix, counter, node.inputs.seq().len()),
                },
            ],
            NodeImpl::Network(_) => Seq::<IndexEntry>::empty(),
        }) + harvest(prefix, *rest, counter + node.inputs.seq().len()),
    }
}

/// The deep view of one stored monitor-path list.
pub open spec fn paths_view(p: Vec<Vec<NodeId>>) -> Seq<Seq<NodeId>> {
    Seq::new(p@.len(), |j: int| p@[j]@)
}

/// The deep view of the by-path index.
pub open spec fn path_index_view(s: Seq<(Vec<NodeId>, Vec<Vec<NodeId>>)>) -> Seq<
    (Seq<NodeId>, Seq<Seq<NodeId>>),
> {
    Seq::new(s.len(), |i: int| (s[i].0@, paths_view(s[i].1)))
}

/// The monitor-path lists of the recorded entries of one kind, in order.
pub open spec fn name_occurrences(recorded: Seq<IndexEntry>, kind: ProtoKind) -> Seq<
    Seq<Seq<NodeId>>,
>
    decreases recorded.len(),
{
    if recorded.len() == 0 {
        Seq::empty()
    } else {
        (if recorded[0].kind == kind {
            seq![recorded[0].monitors]
        } else {
            Seq::<Seq<Seq<NodeId>>>::empty()
        }) + name_occurrences(recorded.drop_first(), kind)
    }
}

/// The deep view of one kind's stored occurrence list.
pub open spec fn occurrences_view(v: Vec<Vec<Vec<NodeId>>>) -> Seq<Seq<Seq<NodeId>>> {
    Seq::new(v@.len(), |i: int| paths_view(v@[i]))
}

/// Both index structures hold exactly the recorded entries: the by-path
/// index in recording order, and each kind's occurrence list in recording
/// order under that kind.
pub open spec fn index_consistent(inst: Instrumented) -> bool {
    &&& path_index_view(inst.protonodes_by_path@) == Seq::new(
        inst.recorded@.len(),
        |i: int| (inst.recorded@[i].path, inst.recorded@[i].monitors),
    )
    &&& forall|kind: ProtoKind|
        (match #[trigger] by_name_lookup(inst.protonodes_by_name@, kind) {
            None => name_occurrences(inst.recorded@, kind).len() == 0,
            Some(v) => occurrences_view(v) == name_occurrences(inst.recorded@, kind),
        })
}

/// The two per-node index structures over the monitors of an instrumented
/// graph: occurrences of each node kind (in graph-occurrence order), and a
/// direct lookup by exact node path. Each entry holds the ordered list of
/// the node's input-monitor paths.
pub struct Instrumented {
    pub protonodes_by_name: Vec<(ProtoKind, Vec<Vec<Vec<NodeId>>>)>,
    pub protonodes_by_path: Vec<(Vec<NodeId>, Vec<Vec<NodeId>>)>,
    /// What has been recorded, in order.
    pub recorded: Ghost<Seq<IndexEntry>>,
}

/// First monitor-path list stored under an exact node path.
pub open spec fn by_path_lookup(
    s: Seq<(Vec<NodeId>, Vec<Vec<NodeId>>)>,
    p: Seq<NodeId>,
) -> Option<Vec<Vec<NodeId>>>
    decreases s.len(),
{
    if s.len() == 0 {
        None
    } else if s[0].0@ == p {
        Some(s[0].1)
    } else {
        by_path_lookup(s.drop_first(), p)
    }
}

/// The occurrence entries stored under a node kind.
pub open spec fn by_name_lookup(
    s: Seq<(ProtoKind, Vec<Vec<Vec<NodeId>>>)>,
    kind: ProtoKind,
) -> Option<Vec<Vec<Vec<NodeId>>>>
    decreases s.len(),
{
    if s.len() == 0 {
        None
    } else if s[0].0 == kind {
        Some(s[0].1)
    } else {
        by_name_lookup(s.drop_first(), kind)
    }
}

proof fn lemma_by_path_skip(s: Seq<(Vec<NodeId>, Vec<Vec<NodeId>>)>, p: Seq<NodeId>, i: int)
    requires
        0 <= i < s.len(),
    ensures
        by_path_lookup(s.skip(i), p) == if s[i].0@ == p {
            Some(s[i].1)
        } else {
            by_path_lookup(s.skip(i + 1), p)
        },
{
    assert(s.skip(i).len() > 0);
    assert(s.skip(i)[0] == s[i]);
    assert(s.skip(i).drop_first() =~= s.skip(i + 1));
}

proof fn lemma_by_name_skip(s: Seq<(ProtoKind, Vec<Vec<Vec<NodeId>>>)>, kind: ProtoKind, i: int)
    requires
        0 <= i < s.len(),
    ensures
        by_name_lookup(s.skip(i), kind) == if s[i].0 == kind {
            Some(s[i].1)
        } else {
            by_name_lookup(s.skip(i + 1), kind)
        },
{
    assert(s.skip(i).len() > 0);
    assert(s.skip(i)[0] == s[i]);
    assert(s.skip(i).drop_first() =~= s.skip(i + 1));
}

impl Instrumented {
    /// An empty index.
    pub fn empty() -> (r: Instrumented)
        ensures
            r.protonodes_by_name@.len() == 0,
            r.protonodes_by_path@.len() == 0,
            r.recorded@ == Seq::<IndexEntry>::empty(),
            index_consistent(r),
    {
        let r = Instrumented {
            protonodes_by_name: Vec::new(),
            protonodes_by_path: Vec::new(),
            recorded: Ghost(Seq::empty()),
        };
        proof {
            assert(path_index_view(r.protonodes_by_path@) =~= Seq::new(
                r.recorded@.len(),
                |i: int| (r.recorded@[i].path, r.recorded@[i].monitors),
            ));
        }
        r
    }

    /// Record one executable-node occurrence: appended to its kind's
    /// occurrence list and bound to its exact path.
    fn record(&mut self, kind: ProtoKind, path: Vec<NodeId>, monitor_paths: Vec<Vec<NodeId>>)
        requires
            index_consistent(*old(self)),
        ensures
            index_consistent(*final(self)),
            final(self).recorded@ == old(self).recorded@.push(
                IndexEntry { kind, path: path@, monitors: paths_view(monitor_paths) },
            ),
    {
        let ghost entry = IndexEntry { kind, path: path@, monitors: paths_view(monitor_paths) };
        let monitor_paths_copy = copy_paths(&monitor_paths);
        proof {
            assert(paths_view(monitor_paths_copy) =~= paths_view(monitor_paths));
        }
        let mut i: usize = 0;
        let mut found = false;
        while i < self.protonodes_by_name.len() && !found
            invariant
                *self == *old(self),
                0 <= i <= self.protonodes_by_name@.len(),
                forall|j: int|
                    0 <= j < i ==> (#[trigger] self.protonodes_by_name@[j]).0 != kind,
                found ==> i < self.protonodes_by_name@.len()
                    && self.protonodes_by_name@[i as int].0 == kind,
            decreases self.protonodes_by_name@.len() - i, (if found {
                0int
            } else {
                1int
            }),
        {
            if kind_eq(self.protonodes_by_name[i].0, kind) {
                found = true;
            } else {
                i += 1;
            }
        }
        let ghost names0 = self.protonodes_by_name@;
        let ghost rec0 = self.recorded@;
        proof {
            lemma_name_occurrences_push(rec0, entry);
        }
        if found {
            proof {
                lemma_by_name_first(names0, i as int);
            }
            let (stored_kind, mut occurrences) = self.protonodes_by_name.remove(i);
            let ghost occ0 = occurrences@;
            occurrences.push(monitor_paths_copy);
            self.protonodes_by_name.insert(i, (stored_kind, occurrences));
            proof {
                assert(self.protonodes_by_name@ =~= names0.update(
                    i as int,
                    (stored_kind, occurrences),
                ));
                lemma_by_name_update(names0, i as int, occurrences);
                assert(occurrences_view(occurrences) =~= occurrences_view(
                    names0[i as int].1,
                ).push(paths_view(monitor_paths)));
            }
        } else {
            let mut occurrences: Vec<Vec<Vec<NodeId>>> = Vec::new();
            occurrences.push(monitor_paths_copy);
            self.protonodes_by_name.push((kind, occurrences));
            proof {
                assert(i == names0.len());
                lemma_by_name_append(names0, (kind, occurrences));
                lemma_by_name_none(names0, kind);
                assert(occurrences_view(occurrences) =~= Seq::<Seq<Seq<NodeId>>>::empty().push(
                    paths_view(monitor_paths),
                ));
            }
        }
        let ghost paths0 = self.protonodes_by_path@;
        self.protonodes_by_path.push((path, monitor_paths));
        proof {
            self.recorded = Ghost(rec0.push(entry));
            assert(paths0 == old(self).protonodes_by_path@);
            assert(rec0 == old(self).recorded@);
            assert(path_index_view(paths0) == Seq::new(
                rec0.len(),
                |j2: int| (rec0[j2].path, rec0[j2].monitors),
            ));
            assert(path_index_view(paths0).len() == rec0.len());
            assert(self.protonodes_by_path@ =~= paths0.push((path, monitor_paths)));
            let goal = Seq::new(
                self.recorded@.len(),
                |j: int| (self.recorded@[j].path, self.recorded@[j].monitors),
            );
            assert(path_index_view(self.protonodes_by_path@).len() == goal.len());
            assert forall|j: int|
                0 <= j < goal.len() implies path_index_view(self.protonodes_by_path@)[j]
                == goal[j] by {
                if j < rec0.len() {
                    assert(path_index_view(paths0)[j] == Seq::new(
                        rec0.len(),
                        |j2: int| (rec0[j2].path, rec0[j2].monitors),
                    )[j]);
                    assert(self.protonodes_by_path@[j] == paths0[j]);
                } else {
                    assert(self.protonodes_by_path@[j] == (path, monitor_paths));
                    assert(self.recorded@[j] == entry);
                }
            }
            assert(path_index_view(self.protonodes_by_path@) =~= goal);
            assert forall|k2: ProtoKind| true implies (match #[trigger] by_name_lookup(
                self.protonodes_by_name@,
                k2,
            ) {
                None => name_occurrences(self.recorded@, k2).len() == 0,
                Some(v) => occurrences_view(v) == name_occurrences(self.recorded@, k2),
            }) by {
                if k2 == kind {
                    assert(name_occurrences(self.recorded@, k2) =~= name_occurrences(rec0, k2)
                        + seq![entry.monitors]);
                    if found {
                        assert(by_name_lookup(names0, kind) == Some(names0[i as int].1));
                        assert(occurrences_view(names0[i as int].1) == name_occurrences(
                            rec0,
                            kind,
                        ));
                        assert(name_occurrences(rec0, kind) + seq![entry.monitors]
                            =~= occurrences_view(names0[i as int].1).push(entry.monitors));
                    } else {
                        assert(name_occurrences(rec0, kind).len() == 0);
                        assert(name_occurrences(rec0, kind) =~= Seq::<Seq<Seq<NodeId>>>::empty());
                        assert(name_occurrences(rec0, kind) + seq![entry.monitors]
                            =~= seq![entry.monitors]);
                        match by_name_lookup(self.protonodes_by_name@, kind) {
                            Some(v) => {
                                assert(occurrences_view(v) =~= seq![entry.monitors]);
                            },
                            None => {
                                assert(false);
                            },
                        }
                    }
                } else {
                    assert(name_occurrences(self.recorded@, k2) =~= name_occurrences(rec0, k2));
                    assert(by_name_lookup(self.protonodes_by_name@, k2) == by_name_lookup(
                        names0,
                        k2,
                    ));
                }
            }
        }
    }
}

fn kind_eq(a: ProtoKind, b: ProtoKind) -> (r: bool)
    ensures
        r == (a == b),
{
    match (a, b) {
        (ProtoKind::Monitor, ProtoKind::Monitor) => true,
        (ProtoKind::Identity, ProtoKind::Identity) => true,
        (ProtoKind::Add, ProtoKind::Add) => true,
        (ProtoKind::Render, ProtoKind::Render) => true,
        _ => false,
    }
}

proof fn lemma_name_occurrences_push(recorded: Seq<IndexEntry>, e: IndexEntry)
    ensures
        forall|k: ProtoKind|
            #[trigger] name_occurrences(recorded.push(e), k) == name_occurrences(recorded, k) + (
            if e.kind == k {
                seq![e.monitors]
            } else {
                Seq::<Seq<Seq<NodeId>>>::empty()
            }),
    decreases recorded.len(),
{
    if recorded.len() == 0 {
        assert forall|k: ProtoKind| true implies #[trigger] name_occurrences(recorded.push(e), k)
            == name_occurrences(recorded, k) + (if e.kind == k {
            seq![e.monitors]
        } else {
            Seq::<Seq<Seq<NodeId>>>::empty()
        }) by {
            assert(recorded.push(e)[0] == e);
            assert(recorded.push(e).drop_first() =~= Seq::<IndexEntry>::empty());
            assert(name_occurrences(recorded.push(e).drop_first(), k)
                == Seq::<Seq<Seq<NodeId>>>::empty());
            assert(name_occurrences(recorded, k) == Seq::<Seq<Seq<NodeId>>>::empty());
            if e.kind == k {
                assert(name_occurrences(recorded.push(e), k) =~= seq![e.monitors]);
                assert(name_occurrences(recorded, k) + seq![e.monitors] =~= seq![e.monitors]);
            } else {
                assert(name_occurrences(recorded.push(e), k) =~= Seq::<Seq<Seq<NodeId>>>::empty());
                assert(name_occurrences(recorded, k) + Seq::<Seq<Seq<NodeId>>>::empty()
                    =~= Seq::<Seq<Seq<NodeId>>>::empty());
            }
        }
    } else {
        lemma_name_occurrences_push(recorded.drop_first(), e);
        assert forall|k: ProtoKind| true implies #[trigger] name_occurrences(recorded.push(e), k)
            == name_occurrences(recorded, k) + (if e.kind == k {
            seq![e.monitors]
        } else {
            Seq::<Seq<Seq<NodeId>>>::empty()
        }) by {
            assert(recorded.push(e)[0] == recorded[0]);
            assert(recorded.push(e).drop_first() =~= recorded.drop_first().push(e));
            assert(name_occurrences(recorded.push(e).drop_first(), k) == name_occurrences(
                recorded.drop_first(),
                k,
            ) + (if e.kind == k {
                seq![e.monitors]
            } else {
                Seq::<Seq<Seq<NodeId>>>::empty()
            }));
            let head: Seq<Seq<Seq<NodeId>>> = if recorded[0].kind == k {
                seq![recorded[0].monitors]
            } else {
                Seq::empty()
            };
            let tail_push = if e.kind == k {
                seq![e.monitors]
            } else {
                Seq::<Seq<Seq<NodeId>>>::empty()
            };
            assert(head + (name_occurrences(recorded.drop_first(), k) + tail_push) =~= (head
                + name_occurrences(recorded.drop_first(), k)) + tail_push);
        }
    }
}

/// Replacing the first entry of a kind changes only that kind's lookup.
proof fn lemma_by_name_update(
    s: Seq<(ProtoKind, Vec<Vec<Vec<NodeId>>>)>,
    i: int,
    newv: Vec<Vec<Vec<NodeId>>>,
)
    requires
        0 <= i < s.len(),
        forall|j: int| 0 <= j < i ==> (#[trigger] s[j]).0 != s[i].0,
    ensures
        forall|k: ProtoKind|
            #[trigger] by_name_lookup(s.update(i, (s[i].0, newv)), k) == (if k == s[i].0 {
                Some(newv)
            } else {
                by_name_lookup(s, k)
            }),
    decreases i,
{
    let t = s.update(i, (s[i].0, newv));
    if i == 0 {
        assert forall|k: ProtoKind| true implies #[trigger] by_name_lookup(t, k) == (if k
            == s[i].0 {
            Some(newv)
        } else {
            by_name_lookup(s, k)
        }) by {
            assert(t[0] == (s[0].0, newv));
            if k != s[0].0 {
                assert(t.drop_first() =~= s.drop_first());
                assert(by_name_lookup(t.drop_first(), k) == by_name_lookup(s.drop_first(), k));
            }
        }
    } else {
        lemma_by_name_update(s.drop_first(), i - 1, newv);
        assert forall|k: ProtoKind| true implies #[trigger] by_name_lookup(t, k) == (if k
            == s[i].0 {
            Some(newv)
        } else {
            by_name_lookup(s, k)
        }) by {
            assert(t[0] == s[0]);
            assert(s[0].0 != s[i].0);
            assert(t.drop_first() =~= s.drop_first().update(i - 1, (s.drop_first()[i - 1].0, newv)));
            assert(forall|j: int|
                0 <= j < i - 1 ==> (#[trigger] s.drop_first()[j]).0 != s.drop_first()[i - 1].0);
            assert(by_name_lookup(t.drop_first(), k) == (if k == s[i].0 {
                Some(newv)
            } else {
                by_name_lookup(s.drop_first(), k)
            }));
        }
    }
}

/// Appending an entry changes only lookups that found nothing before.
proof fn lemma_by_name_append(
    s: Seq<(ProtoKind, Vec<Vec<Vec<NodeId>>>)>,
    e: (ProtoKind, Vec<Vec<Vec<NodeId>>>),
)
    ensures
        forall|k: ProtoKind|
            #[trigger] by_name_lookup(s.push(e), k) == (if by_name_lookup(s, k) is Some {
                by_name_lookup(s, k)
            } else if e.0 == k {
                Some(e.1)
            } else {
                None
            }),
    decreases s.len(),
{
    if s.len() == 0 {
        assert forall|k: ProtoKind| true implies #[trigger] by_name_lookup(s.push(e), k) == (
        if by_name_lookup(s, k) is Some {
            by_name_lookup(s, k)
        } else if e.0 == k {
            Some(e.1)
        } else {
            None
        }) by {
            assert(s.push(e)[0] == e);
            assert(s.push(e).drop_first() =~= Seq::<(ProtoKind, Vec<Vec<Vec<NodeId>>>)>::empty());
            assert(by_name_lookup(s.push(e).drop_first(), k) is None);
        }
    } else {
        lemma_by_name_append(s.drop_first(), e);
        assert forall|k: ProtoKind| true implies #[trigger] by_name_lookup(s.push(e), k) == (
        if by_name_lookup(s, k) is Some {
            by_name_lookup(s, k)
        } else if e.0 == k {
            Some(e.1)
        } else {
            None
        }) by {
            assert(s.push(e)[0] == s[0]);
            assert(s.push(e).drop_first() =~= s.drop_first().push(e));
            assert(by_name_lookup(s.push(e).drop_first(), k) == (if by_name_lookup(
                s.drop_first(),
                k,
            ) is Some {
                by_name_lookup(s.drop_first(), k)
            } else if e.0 == k {
                Some(e.1)
            } else {
                None
            }));
        }
    }
}

/// The first entry of a kind is what its lookup finds.
proof fn lemma_by_name_first(s: Seq<(ProtoKind, Vec<Vec<Vec<NodeId>>>)>, i: int)
    requires
        0 <= i < s.len(),
        forall|j: int| 0 <= j < i ==> (#[trigger] s[j]).0 != s[i].0,
    ensures
        by_name_lookup(s, s[i].0) == Some(s[i].1),
    decreases i,
{
    if i == 0 {
    } else {
        assert(s[0].0 != s[i].0);
        assert(forall|j: int|
            0 <= j < i - 1 ==> (#[trigger] s.drop_first()[j]).0 != s.drop_first()[i - 1].0);
        lemma_by_name_first(s.drop_first(), i - 1);
    }
}

/// A kind bound nowhere looks up to nothing.
proof fn lemma_by_name_none(s: Seq<(ProtoKind, Vec<Vec<Vec<NodeId>>>)>, kind: ProtoKind)
    requires
        forall|j: int| 0 <= j < s.len() ==> (#[trigger] s[j]).0 != kind,
    ensures
        by_name_lookup(s, kind) is None,
    decreases s.len(),
{
    if s.len() > 0 {
        assert(forall|j: int|
            0 <= j < s.drop_first().len() ==> (#[trigger] s.drop_first()[j]).0 != kind);
        lemma_by_name_none(s.drop_first(), kind);
    }
}

/// Copy a list of node paths.
fn copy_paths(paths: &Vec<Vec<NodeId>>) -> (r: Vec<Vec<NodeId>>)
    ensures
        r@.len() == paths@.len(),
        forall|i: int| 0 <= i < paths@.len() ==> (#[trigger] r@[i])@ == paths@[i]@,
{
    let mut out: Vec<Vec<NodeId>> = Vec::new();
    let mut i: usize = 0;
    while i < paths.len()
        invariant
            0 <= i <= paths@.len(),
            out@.len() == i,
            forall|j: int| 0 <= j < i ==> (#[trigger] out@[j])@ == paths@[j]@,
        decreases paths@.len() - i,
    {
        out.push(crate::compile::copy_path(&paths[i]));
        i += 1;
    }
    out
}

/// Reroute every input edge of `l` through a fresh monitor, numbering the
/// monitors from `counter` on. Gives back the rewired list, the monitor
/// nodes, the next counter, and the monitor paths below `prefix`.
fn instrument_inputs(
    Ghost(olds): Ghost<NodeList>,
    l: InputList,
    counter: u64,
    prefix: &Vec<NodeId>,
) -> (r: Option<(InputList, NodeList, u64, Vec<Vec<NodeId>>)>)
    requires
        forall|id: NodeId| #[trigger] olds.contains_id(id) ==> id.0 < counter,
    ensures
        match r {
            Some((l2, mons, c2, paths)) => {
                &&& counter <= c2
                &&& c2 == counter + l.seq().len()
                &&& harness_inputs(olds, mons, l, l2)
                &&& paths_view(paths) == monitor_paths_from(prefix@, counter as int, l.seq().len())
                &&& forall|m: NodeId| #[trigger] mons.contains_id(m) ==> counter <= m.0 < c2
            },
            None => counter + l.seq().len() > u64::MAX,
        },
    decreases l,
{
    match l {
        InputList::Nil => {
            let paths: Vec<Vec<NodeId>> = Vec::new();
            proof {
                assert(paths_view(paths) =~= monitor_paths_from(prefix@, counter as int, 0));
            }
            Some((InputList::Nil, NodeList::Nil, counter, paths))
        },
        InputList::Cons(e, rest) => {
            if counter == u64::MAX {
                return None;
            }
            let mid = NodeId(counter);
            match instrument_inputs(Ghost(olds), *rest, counter + 1, prefix) {
                None => None,
                Some((rest2, mons_rest, c2, mut paths_rest)) => {
                    let l2 = InputList::Cons(
                        NodeInput::Node { node_id: mid, output_index: 0 },
                        Box::new(rest2),
                    );
                    let monitor = Node {
                        inputs: InputList::Cons(e, Box::new(InputList::Nil)),
                        implementation: NodeImpl::Proto(ProtoKind::Monitor),
                    };
                    let mons = NodeList::Cons(mid, Box::new(monitor), Box::new(mons_rest));
                    let mut path = crate::compile::copy_path(prefix);
                    path.push(mid);
                    let mut paths: Vec<Vec<NodeId>> = Vec::new();
                    paths.push(path);
                    let mut k: usize = 0;
                    while k < paths_rest.len()
                        invariant
                            0 <= k <= paths_rest@.len(),
                            paths@.len() == 1 + k,
                            paths@[0]@ == prefix@.push(mid),
                            forall|j: int|
                                1 <= j <= k ==> (#[trigger] paths@[j])@ == paths_rest@[j - 1]@,
                        decreases paths_rest@.len() - k,
                    {
                        paths.push(crate::compile::copy_path(&paths_rest[k]));
                        k += 1;
                    }
                    proof {
                        let full = monitor_paths_from(prefix@, counter as int, l.seq().len());
                        lemma_monitor_paths_from_len(prefix@, counter as int, l.seq().len());
                        lemma_monitor_paths_from_len(
                            prefix@,
                            counter as int + 1,
                            rest.seq().len(),
                        );
                        assert(l.seq().len() == 1 + rest.seq().len());
                        assert forall|j: int| 0 <= j < paths@.len() implies (#[trigger] paths@[j])@
                            == full[j] by {
                            if j == 0 {
                                assert(full[0] == prefix@.push(NodeId(counter)));
                            } else {
                                assert(full[j] == monitor_paths_from(
                                    prefix@,
                                    counter as int + 1,
                                    rest.seq().len(),
                                )[j - 1]);
                                assert(paths_rest@[j - 1]@ == monitor_paths_from(
                                    prefix@,
                                    counter as int + 1,
                                    rest.seq().len(),
                                )[j - 1]);
                            }
                        }
                        assert(paths_view(paths) =~= full);
                        assert(olds.contains_id(mid) ==> mid.0 < counter);
                        assert(!olds.contains_id(mid));
                        assert(mons.find(mid) == Some(monitor_of(e)));
                        assert forall|m: NodeId| (#[trigger] mons_rest.find(m)) is Some implies
                            mons.find(m) == mons_rest.find(m) by {
                            mons_rest.lemma_find_some_iff_contains(m);
                        }
                        lemma_harness_inputs_mono(olds, mons_rest, mons, *rest, rest2);
                        assert(harness_inputs(olds, mons, l, l2));
                        assert forall|m: NodeId| #[trigger] mons.contains_id(m) implies counter
                            <= m.0 < c2 by {
                            if m != mid {
                                assert(mons_rest.contains_id(m));
                            }
                        }
                    }
                    Some((l2, mons, c2, paths))
                },
            }
        },
    }
}

/// Instrument every node of one level, numbering fresh monitors from
/// `counter` on, recording executable nodes in the index below `prefix`.
fn instrument_nodes_level(
    Ghost(olds): Ghost<NodeList>,
    nodes: NodeList,
    counter: u64,
    prefix: &mut Vec<NodeId>,
    index: &mut Instrumented,
) -> (r: Option<(NodeList, NodeList, u64)>)
    requires
        index_consistent(*old(index)),
        forall|id: NodeId| #[trigger] olds.contains_id(id) ==> id.0 < counter,
    ensures
        final(prefix)@ == old(prefix)@,
        index_consistent(*final(index)),
        match r {
            Some((t, mons, c2)) => {
                &&& counter <= c2
                &&& c2 == counter + level_edge_count(nodes)
                &&& subnets_instrumentable(nodes)
                &&& harness_nodes(olds, mons, nodes, t)
                &&& final(index).recorded@ == old(index).recorded@ + harvest(
                    old(prefix)@,
                    nodes,
                    counter as int,
                )
                &&& forall|m: NodeId| #[trigger] mons.contains_id(m) ==> counter <= m.0 < c2
            },
            None => counter + level_edge_count(nodes) > u64::MAX || !subnets_instrumentable(
                nodes,
            ),
        },
    decreases nodes,
{
    match nodes {
        NodeList::Nil => {
            proof {
                assert(index.recorded@ =~= index.recorded@ + harvest(
                    prefix@,
                    nodes,
                    counter as int,
                ));
            }
            Some((NodeList::Nil, NodeList::Nil, counter))
        },
        NodeList::Cons(id, node, rest) => {
            let inner = *node;
            let ghost rec0 = index.recorded@;
            let ghost p0 = prefix@;
            let implementation = match inner.implementation {
                NodeImpl::Proto(kind) => NodeImpl::Proto(kind),
                NodeImpl::Network(sub) => {
                    prefix.push(id);
                    let sub2 = match instrument_network_inner(sub, prefix, index) {
                        None => {
                            prefix.pop();
                            return None;
                        },
                        Some(sub2) => sub2,
                    };
                    prefix.pop();
                    proof {
                        assert(prefix@ =~= old(prefix)@);
                    }
                    NodeImpl::Network(sub2)
                },
            };
            let ghost old_impl = node.implementation;
            let (inputs2, my_mons, c1, monitor_paths) = match instrument_inputs(
                Ghost(olds),
                inner.inputs,
                counter,
                prefix,
            ) {
                None => {
                    return None;
                },
                Some(x) => x,
            };
            let ghost rec_sub = index.recorded@;
            // Index an executable node under its kind and its exact path.
            match &implementation {
                NodeImpl::Proto(kind) => {
                    let mut path = crate::compile::copy_path(prefix);
                    path.push(id);
                    index.record(*kind, path, monitor_paths);
                },
                NodeImpl::Network(_) => {},
            }
            let ghost rec_own = index.recorded@;
            let (t_rest, mons_rest, c2) = match instrument_nodes_level(
                Ghost(olds),
                *rest,
                c1,
                prefix,
                index,
            ) {
                None => {
                    return None;
                },
                Some(x) => x,
            };
            let node2 = Node { inputs: inputs2, implementation };
            let mons = append_nodes_exec(my_mons, mons_rest);
            let t = NodeList::Cons(id, Box::new(node2), Box::new(t_rest));
            proof {
                lemma_append_keeps_left(my_mons, mons_rest);
                lemma_harness_inputs_mono(olds, my_mons, mons, inner.inputs, node2.inputs);
                assert forall|m: NodeId| #[trigger] mons_rest.contains_id(m) implies
                    !my_mons.contains_id(m) by {
                }
                lemma_append_keeps_right(my_mons, mons_rest);
                lemma_harness_nodes_mono(olds, mons_rest, mons, *rest, t_rest);
                assert forall|m: NodeId| #[trigger] mons.contains_id(m) implies counter <= m.0
                    < c2 by {
                    lemma_find_append(my_mons, mons_rest, m);
                }
                assert(harness_node(olds, mons, inner, node2));
                // The recordings are the sub-network's, then this node's own
                // (when executable), then the remaining nodes'.
                let sub_part = match old_impl {
                    NodeImpl::Network(sub) => harvest(
                        p0.push(id),
                        sub.nodes,
                        spec_max_id(sub.nodes) + 1,
                    ),
                    NodeImpl::Proto(_) => Seq::<IndexEntry>::empty(),
                };
                let own_part = match old_impl {
                    NodeImpl::Proto(kind) => seq![
                        IndexEntry {
                            kind,
                            path: p0.push(id),
                            monitors: monitor_paths_from(
                                p0,
                                counter as int,
                                node.inputs.seq().len(),
                            ),
                        },
                    ],
                    NodeImpl::Network(_) => Seq::<IndexEntry>::empty(),
                };
                let rest_part = harvest(p0, *rest, c1 as int);
                assert(rec_sub =~= rec0 + sub_part);
                assert(rec_own =~= rec0 + sub_part + own_part);
                assert(index.recorded@ =~= rec_own + rest_part);
                assert(index.recorded@ =~= rec0 + (sub_part + own_part + rest_part));
                assert(harvest(p0, nodes, counter as int) == sub_part + own_part + rest_part);
            }
            Some((t, mons, c2))
        },
    }
}

/// Instrument one network level and everything below it. Gives nothing back
/// when a level's node ids are not unique or the id space is exhausted.
fn instrument_network_inner(
    net: Network,
    prefix: &mut Vec<NodeId>,
    index: &mut Instrumented,
) -> (r: Option<Network>)
    requires
        index_consistent(*old(index)),
    ensures
        final(prefix)@ == old(prefix)@,
        index_consistent(*final(index)),
        match r {
            Some(net2) => {
                &&& harness_rel(net, net2)
                &&& inst_rel(net, net2)
                &&& instrumentable(net)
                &&& final(index).recorded@ == old(index).recorded@ + harvest(
                    old(prefix)@,
                    net.nodes,
                    spec_max_id(net.nodes) + 1,
                )
            },
            None => !instrumentable(net),
        },
    decreases net,
{
    if !crate::compile::check_unique(&net.nodes) {
        return None;
    }
    let max = net.nodes.max_id();
    let counter: u64 = match max {
        None => 0,
        Some(m) => {
            if m == u64::MAX {
                proof {
                    lemma_spec_max_id(net.nodes);
                }
                return None;
            }
            m + 1
        },
    };
    proof {
        match max {
            None => {
                assert(spec_max_id(net.nodes) == -1);
            },
            Some(m) => {
                lemma_spec_max_id(net.nodes);
                assert(m == spec_max_id(net.nodes));
            },
        }
        assert(counter == spec_max_id(net.nodes) + 1);
        assert forall|id: NodeId| #[trigger] net.nodes.contains_id(id) implies id.0 < counter by {
            match max {
                None => {},
                Some(m) => {},
            }
        }
    }
    let Network { nodes, exports, input_kind } = net;
    let ghost olds = nodes;
    let (t, mons, _c2) = match instrument_nodes_level(Ghost(olds), nodes, counter, prefix, index) {
        None => {
            return None;
        },
        Some(x) => x,
    };
    let nodes2 = append_nodes_exec(t, mons);
    let net2 = Network { nodes: nodes2, exports, input_kind };
    proof {
        lemma_harness_same_ids(olds, mons, olds, t);
        lemma_append_keeps_left(t, mons);
        assert forall|m: NodeId| (#[trigger] mons.find(m)) is Some implies net2.nodes.find(m)
            == mons.find(m) by {
            mons.lemma_find_some_iff_contains(m);
            assert(!olds.contains_id(m));
            assert(!t.contains_id(m));
            lemma_find_append(t, mons, m);
        }
        assert forall|id: NodeId| (#[trigger] t.find(id)) is Some implies net2.nodes.find(id)
            == t.find(id) by {
            t.lemma_find_some_iff_contains(id);
            lemma_find_append(t, mons, id);
        }
        lemma_harness_monitored_nodes(olds, mons, t, net2.nodes, olds);
        lemma_harness_rel_inst(net, net2);
    }
    Some(net2)
}

impl Instrumented {
    /// Instrument a graph in place and hand back the monitor index. The graph
    /// is left unchanged (and nothing comes back) when a level's node ids are
    /// not unique or the id space is exhausted.
    pub fn new(network: &mut Network) -> (r: Option<Instrumented>)
        ensures
            match r {
                Some(idx) => {
                    &&& harness_rel(*old(network), *final(network))
                    &&& inst_rel(*old(network), *final(network))
                    &&& instrumentable(*old(network))
                    &&& index_consistent(idx)
                    &&& idx.recorded@ == harvest(
                        Seq::empty(),
                        old(network).nodes,
                        spec_max_id(old(network).nodes) + 1,
                    )
                },
                None => *final(network) == *old(network) && !instrumentable(*old(network)),
            },
    {
        let copy = network.duplicate();
        let mut prefix: Vec<NodeId> = Vec::new();
        let mut index = Instrumented::empty();
        match instrument_network_inner(copy, &mut prefix, &mut index) {
            None => None,
            Some(net2) => {
                proof {
                    assert(index.recorded@ =~= harvest(
                        Seq::empty(),
                        network.nodes,
                        spec_max_id(network.nodes) + 1,
                    ));
                }
                *network = net2;
                Some(index)
            },
        }
    }

    /// The value observed at the `input_index`-th input of the executable
    /// node at `path`, if that input's monitor holds one.
    pub fn grab_protonode_input(
        &self,
        path: &Vec<NodeId>,
        input_index: usize,
        runtime: &NodeRuntime,
    ) -> (r: Option<Value>)
        ensures
            r == (match by_path_lookup(self.protonodes_by_path@, path@) {
                None => None::<Value>,
                Some(paths) => if input_index < paths@.len() {
                    match runtime.executor.program {
                        None => None::<Value>,
                        Some(_) => obs_lookup(
                            runtime.executor.observations@,
                            paths@[input_index as int]@,
                        ),
                    }
                } else {
                    None::<Value>
                },
            }),
    {
        let s = &self.protonodes_by_path;
        let mut i: usize = 0;
        proof {
            assert(s@.skip(0) =~= s@);
        }
        while i < s.len()
            invariant
                0 <= i <= s@.len(),
                s == &self.protonodes_by_path,
                by_path_lookup(s@, path@) == by_path_lookup(s@.skip(i as int), path@),
            decreases s@.len() - i,
        {
            proof {
                lemma_by_path_skip(s@, path@, i as int);
            }
            if crate::executor::path_eq(&s[i].0, path) {
                let paths = &s[i].1;
                if input_index < paths.len() {
                    return match runtime.executor.introspect(&paths[input_index]) {
                        Ok(v) => Some(v),
                        Err(_) => None,
                    };
                } else {
                    return None;
                }
            }
            i += 1;
        }
        proof {
            assert(s@.skip(s@.len() as int) =~= Seq::<(Vec<NodeId>, Vec<Vec<NodeId>>)>::empty());
        }
        None
    }

    /// All values observed at the `input_index`-th input of every occurrence
    /// of node kind `kind`, in graph-occurrence order; occurrences whose
    /// introspection fails are filtered out.
    pub fn grab_all_input(&self, kind: ProtoKind, input_index: usize, runtime: &NodeRuntime) -> (r:
        Vec<Value>)
        ensures
            r@ == (match by_name_lookup(self.protonodes_by_name@, kind) {
                None => Seq::<Value>::empty(),
                Some(occurrences) => collect_inputs(
                    occurrences@,
                    input_index as int,
                    runtime.executor.program is Some,
                    runtime.executor.observations@,
                    0,
                ),
            }),
    {
        let s = &self.protonodes_by_name;
        let mut i: usize = 0;
        proof {
            assert(s@.skip(0) =~= s@);
        }
        while i < s.len()
            invariant
                0 <= i <= s@.len(),
                s == &self.protonodes_by_name,
                by_name_lookup(s@, kind) == by_name_lookup(s@.skip(i as int), kind),
            decreases s@.len() - i,
        {
            proof {
                lemma_by_name_skip(s@, kind, i as int);
            }
            if kind_eq(s[i].0, kind) {
                let occurrences = &s[i].1;
                let mut out: Vec<Value> = Vec::new();
                let mut j: usize = 0;
                let ghost have_program = runtime.executor.program is Some;
                let ghost obs = runtime.executor.observations@;
                proof {
                    lemma_collect_take(occurrences@, input_index as int, have_program, obs, 0);
                }
                while j < occurrences.len()
                    invariant
                        0 <= j <= occurrences@.len(),
                        have_program == (runtime.executor.program is Some),
                        obs == runtime.executor.observations@,
                        out@ == collect_inputs_upto(
                            occurrences@,
                            input_index as int,
                            have_program,
                            obs,
                            j as int,
                        ),
                    decreases occurrences@.len() - j,
                {
                    let paths = &occurrences[j];
                    if input_index < paths.len() {
                        match runtime.executor.introspect(&paths[input_index]) {
                            Ok(v) => {
                                out.push(v);
                            },
                            Err(_) => {},
                        }
                    }
                    proof {
                        lemma_collect_step(
                            occurrences@,
                            input_index as int,
                            have_program,
                            obs,
                            j as int,
                        );
                    }
                    j += 1;
                }
                proof {
                    lemma_collect_all(occurrences@, input_index as int, have_program, obs);
                }
                return out;
            }
            i += 1;
        }
        proof {
            assert(s@.skip(s@.len() as int) =~= Seq::<(ProtoKind, Vec<Vec<Vec<NodeId>>>)>::empty());
        }
        Vec::new()
    }

    /// The value observed at the `input_index`-th input of the executable
    /// node reached from a visible layer, when the layer's upstream node is
    /// known.
    pub fn grab_input_from_layer(
        &self,
        upstream_node: Option<NodeId>,
        input_index: usize,
        runtime: &NodeRuntime,
    ) -> (r: Option<Value>)
        ensures
            r == (match upstream_node {
                None => None::<Value>,
                Some(node) => match by_path_lookup(self.protonodes_by_path@, seq![node]) {
                    None => None::<Value>,
                    Some(paths) => if input_index < paths@.len() {
                        match runtime.executor.program {
                            None => None::<Value>,
                            Some(_) => obs_lookup(
                                runtime.executor.observations@,
                                paths@[input_index as int]@,
                            ),
                        }
                    } else {
                        None::<Value>
                    },
                },
            }),
    {
        match upstream_node {
            None => None,
            Some(node) => {
                let path: Vec<NodeId> = vec![node];
                proof {
                    assert(path@ =~= seq![node]);
                }
                self.grab_protonode_input(&path, input_index, runtime)
            },
        }
    }
}

/// The observed values of the `idx`-th input over the occurrences from
/// position `j` on, skipping failed introspections.
pub open spec fn collect_inputs(
    occurrences: Seq<Vec<Vec<NodeId>>>,
    idx: int,
    have_program: bool,
    obs: Seq<(Vec<NodeId>, Value)>,
    j: int,
) -> Seq<Value>
    decreases occurrences.len() - j,
{
    if 0 <= j < occurrences.len() {
        let rest = collect_inputs(occurrences, idx, have_program, obs, j + 1);
        match occurrence_value(occurrences[j], idx, have_program, obs) {
            Some(v) => seq![v] + rest,
            None => rest,
        }
    } else {
        Seq::empty()
    }
}

/// The observed value at one occurrence's `idx`-th input.
pub open spec fn occurrence_value(
    paths: Vec<Vec<NodeId>>,
    idx: int,
    have_program: bool,
    obs: Seq<(Vec<NodeId>, Value)>,
) -> Option<Value> {
    if 0 <= idx < paths@.len() && have_program {
        obs_lookup(obs, paths@[idx]@)
    } else {
        None
    }
}

/// The prefix of [`collect_inputs`] contributed by the first `j` occurrences.
pub open spec fn collect_inputs_upto(
    occurrences: Seq<Vec<Vec<NodeId>>>,
    idx: int,
    have_program: bool,
    obs: Seq<(Vec<NodeId>, Value)>,
    j: int,
) -> Seq<Value>
    decreases j,
{
    if 0 < j <= occurrences.len() {
        collect_inputs_upto(occurrences, idx, have_program, obs, j - 1) + (match occurrence_value(
            occurrences[j - 1],
            idx,
            have_program,
            obs,
        ) {
            Some(v) => seq![v],
            None => Seq::empty(),
        })
    } else {
        Seq::empty()
    }
}

proof fn lemma_collect_take(
    occurrences: Seq<Vec<Vec<NodeId>>>,
    idx: int,
    have_program: bool,
    obs: Seq<(Vec<NodeId>, Value)>,
    j: int,
)
    ensures
        collect_inputs_upto(occurrences, idx, have_program, obs, 0) == Seq::<Value>::empty(),
{
}

proof fn lemma_collect_step(
    occurrences: Seq<Vec<Vec<NodeId>>>,
    idx: int,
    have_program: bool,
    obs: Seq<(Vec<NodeId>, Value)>,
    j: int,
)
    requires
        0 <= j < occurrences.len(),
    ensures
        collect_inputs_upto(occurrences, idx, have_program, obs, j + 1) == collect_inputs_upto(
            occurrences,
            idx,
            have_program,
            obs,
            j,
        ) + (match occurrence_value(occurrences[j], idx, have_program, obs) {
            Some(v) => seq![v],
            None => Seq::<Value>::empty(),
        }),
{
}

/// The two ways of accumulating agree on the whole sequence.
proof fn lemma_collect_all(
    occurrences: Seq<Vec<Vec<NodeId>>>,
    idx: int,
    have_program: bool,
    obs: Seq<(Vec<NodeId>, Value)>,
)
    ensures
        collect_inputs_upto(occurrences, idx, have_program, obs, occurrences.len() as int)
            == collect_inputs(occurrences, idx, have_program, obs, 0),
{
    lemma_collect_split(occurrences, idx, have_program, obs, 0);
    assert(Seq::<Value>::empty() + collect_inputs(occurrences, idx, have_program, obs, 0)
        =~= collect_inputs(occurrences, idx, have_program, obs, 0));
}

/// Splitting the accumulation at any point gives the whole.
proof fn lemma_collect_split(
    occurrences: Seq<Vec<Vec<NodeId>>>,
    idx: int,
    have_program: bool,
    obs: Seq<(Vec<NodeId>, Value)>,
    j: int,
)
    requires
        0 <= j <= occurrences.len(),
    ensures
        collect_inputs_upto(occurrences, idx, have_program, obs, occurrences.len() as int)
            == collect_inputs_upto(occurrences, idx, have_program, obs, j) + collect_inputs(
            occurrences,
            idx,
            have_program,
            obs,
            j,
        ),
    decreases occurrences.len() - j,
{
    if j == occurrences.len() {
        assert(collect_inputs_upto(occurrences, idx, have_program, obs, j) + Seq::<Value>::empty()
            =~= collect_inputs_upto(occurrences, idx, have_program, obs, j));
    } else {
        lemma_collect_split(occurrences, idx, have_program, obs, j + 1);
        lemma_collect_step(occurrences, idx, have_program, obs, j);
        match occurrence_value(occurrences[j], idx, have_program, obs) {
            Some(v) => {
                assert((collect_inputs_upto(occurrences, idx, have_program, obs, j) + seq![v])
                    + collect_inputs(occurrences, idx, have_program, obs, j + 1)
                    =~= collect_inputs_upto(occurrences, idx, have_program, obs, j) + (seq![v]
                    + collect_inputs(occurrences, idx, have_program, obs, j + 1)));
            },
            None => {
                assert((collect_inputs_upto(occurrences, idx, have_program, obs, j)
                    + Seq::<Value>::empty()) + collect_inputs(occurrences, idx, have_program, obs, j + 1)
                    =~= collect_inputs_upto(occurrences, idx, have_program, obs, j)
                    + collect_inputs(occurrences, idx, have_program, obs, j + 1));
            },
        }
    }
}

} // verus!
