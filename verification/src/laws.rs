//! The laws the runtime obeys, stated over the specification functions that
//! the executable functions' contracts use.

use vstd::prelude::*;

use crate::compile::{fuel_policy, valid_network, CompileError, CompiledProgram};
use crate::executor::{observe, program_output, ExecutionError};
use crate::graph::{Network, NodeId, RenderConfig, Value};
use crate::inspect::inject_monitor;
use crate::instrument::monitor_of;
use crate::messages::{GraphUpdate, NodeRuntimeMessage};
use crate::preserve::{edge_bound, inst_rel, lemma_complete_mon_edge, lemma_inst_inputs_same_len, lemma_inspect_monitor_observes_target, lemma_instrumentation_preserves_output, lemma_sound_edge, refs_bound, unique_network};
use crate::runtime::{compile_fails_with, execution_input, execution_outcome, last_execution, last_graph, spec_compiles};
use crate::semantics::{eval_input, eval_node, evals_to, lemma_evals_to_unique, node_evals_to};

verus! {

/// Compiling a structurally sound graph with exactly one export succeeds,
/// and executing the installed program against a matching input returns
/// exactly the value the graph's semantics gives its export. Graphs whose
/// export does not evaluate (a dependency cycle, an arity breach inside a
/// value) are excluded: on those, execution reports an error instead.
pub proof fn law_compile_then_execute(
    net: Network,
    cfg: RenderConfig,
    prog: CompiledProgram,
    input: Value,
    v: Value,
)
    requires
        net.exports.seq().len() == 1,
        valid_network(net, 1),
        fuel_policy(net) <= u64::MAX,
        prog.network == net,
        prog.fuel == fuel_policy(net),
        prog.input_kind == net.input_kind,
        execution_input(net.input_kind, cfg) == Some(input),
        eval_input(net, seq![input], net.exports.seq()[0], fuel_policy(net)) == Some(v),
    ensures
        spec_compiles(net),
        execution_outcome(Some(prog), cfg) == Ok::<Value, ExecutionError>(v),
        evals_to(net, seq![input], net.exports.seq()[0], v),
{
    assert(program_output(prog, input) == Some(v));
}

/// Compiling a graph with zero or more than one export fails with the
/// corresponding structural error; nothing about the rest of the graph can
/// rescue it. The runtime stays usable: a failed compile leaves the executor
/// untouched, by the compile contract, so a subsequent valid graph compiles.
pub proof fn law_export_count_rejected(net: Network)
    requires
        net.exports.seq().len() != 1,
    ensures
        !spec_compiles(net),
        net.exports.seq().len() == 0 ==> compile_fails_with(net, CompileError::NoOutput),
        net.exports.seq().len() > 1 ==> compile_fails_with(net, CompileError::MultipleOutputs),
{
}

/// Monitor injection is semantics-preserving: for any graph whose references
/// resolve and ids are unique, any monitored rewrite of it (the inspect
/// subscription and the instrumentation harness both produce one), and any
/// input, the rewrite's output is bit-identical to the original's.
pub proof fn law_instrumentation_preserves_semantics(
    net: Network,
    net2: Network,
    input: Value,
    v: Value,
)
    requires
        inst_rel(net, net2),
        refs_bound(net),
        net.exports.seq().len() == 1,
    ensures
        net2.exports.seq().len() == 1,
        evals_to(net, seq![input], net.exports.seq()[0], v) <==> evals_to(
            net2,
            seq![input],
            net2.exports.seq()[0],
            v,
        ),
{
    lemma_instrumentation_preserves_output(net, net2, seq![input], v);
}

/// A value an instrumented execution actually returned is the original
/// graph's true output for that input.
pub proof fn law_instrumented_execution_sound(
    net: Network,
    net2: Network,
    input: Value,
    fuel: nat,
    v: Value,
)
    requires
        inst_rel(net, net2),
        refs_bound(net),
        net.exports.seq().len() == 1,
        net2.exports.seq().len() == 1,
        eval_input(net2, seq![input], net2.exports.seq()[0], fuel) == Some(v),
    ensures
        evals_to(net, seq![input], net.exports.seq()[0], v),
{
    assert(evals_to(net2, seq![input], net2.exports.seq()[0], v));
    lemma_instrumentation_preserves_output(net, net2, seq![input], v);
}

/// Executing the installed instrumented program returns exactly the
/// original graph's output, whenever its fuel bound covers twice the chain
/// depth at which the original evaluates (each rerouted edge costs one
/// extra monitor hop). The unconditional form — that the compiled fuel
/// bound always reaches every value the fuel-free semantics yields — is
/// not proved here.
pub proof fn law_instrumented_program_output(
    net: Network,
    net2: Network,
    prog2: CompiledProgram,
    cfg: RenderConfig,
    input: Value,
    f: nat,
    v: Value,
)
    requires
        inst_rel(net, net2),
        net.exports.seq().len() == 1,
        prog2.network == net2,
        execution_input(prog2.input_kind, cfg) == Some(input),
        eval_input(net, seq![input], net.exports.seq()[0], f) == Some(v),
        2 * f + 1 <= prog2.fuel,
    ensures
        execution_outcome(Some(prog2), cfg) == Ok::<Value, ExecutionError>(v),
        evals_to(net, seq![input], net.exports.seq()[0], v),
{
    lemma_inst_inputs_same_len(net.nodes, net2.nodes, net.exports, net2.exports);
    lemma_complete_mon_edge(
        net,
        net2,
        seq![input],
        net.exports.seq()[0],
        net2.exports.seq()[0],
        f,
        prog2.fuel as nat,
        v,
    );
    assert(program_output(prog2, input) == Some(v));
}

/// Reading a single-id path observes that node's output.
pub proof fn lemma_observe_single(net: Network, env: Seq<Value>, id: NodeId, fuel: nat)
    ensures
        observe(net, env, seq![id], fuel) == eval_node(net, env, id, fuel),
{
    assert(seq![id].len() == 1);
    assert(seq![id][0] == id);
}

/// The inspect subscription on node A returns a value equal to A's true
/// output for that execution: whatever the injected monitor's path observes
/// is exactly what A evaluates to in the original graph, and conversely.
pub proof fn law_inspect_subscription_exact(
    net: Network,
    target: NodeId,
    mid: NodeId,
    input: Value,
    fuel: nat,
    v: Value,
)
    requires
        !net.nodes.contains_id(mid),
        unique_network(net),
        refs_bound(net),
        net.nodes.contains_id(target),
        observe(inject_monitor(net, target, mid), seq![input], seq![mid], fuel) == Some(v),
    ensures
        node_evals_to(net, seq![input], target, v),
        forall|w: Value| node_evals_to(net, seq![input], target, w) ==> w == v,
{
    let net2 = inject_monitor(net, target, mid);
    lemma_observe_single(net2, seq![input], mid, fuel);
    assert(node_evals_to(net2, seq![input], mid, v));
    lemma_inspect_monitor_observes_target(net, target, mid, seq![input], v);
    assert forall|w: Value| node_evals_to(net, seq![input], target, w) implies w == v by {
        lemma_node_evals_unique(net, seq![input], target, w, v);
    }
}

proof fn lemma_node_evals_unique(net: Network, env: Seq<Value>, id: NodeId, v1: Value, v2: Value)
    requires
        node_evals_to(net, env, id, v1),
        node_evals_to(net, env, id, v2),
    ensures
        v1 == v2,
{
    let f1 = choose|f: nat| eval_node(net, env, id, f) == Some(v1);
    let f2 = choose|f: nat| eval_node(net, env, id, f) == Some(v2);
    if f1 <= f2 {
        crate::semantics::lemma_eval_node_mono(net, env, id, f1, f2);
    } else {
        crate::semantics::lemma_eval_node_mono(net, env, id, f2, f1);
    }
}

/// What a top-level input monitor of a monitored rewrite observes is
/// exactly the value the observed original edge produces in the original
/// graph: a harness query for an occurrence's input hands back that input's
/// true value.
pub proof fn law_input_monitor_observes_edge(
    net: Network,
    net2: Network,
    m: NodeId,
    e: crate::graph::NodeInput,
    env: Seq<Value>,
    fuel: nat,
    v: Value,
)
    requires
        inst_rel(net, net2),
        refs_bound(net),
        edge_bound(net.nodes, e),
        net2.nodes.find(m) == Some(monitor_of(e)),
        observe(net2, env, seq![m], fuel) == Some(v),
    ensures
        evals_to(net, env, e, v),
{
    lemma_observe_single(net2, env, m, fuel);
    let monitor = monitor_of(e);
    let args = crate::semantics::eval_inputs(net2, env, monitor.inputs, fuel).unwrap();
    assert(crate::semantics::eval_input(net2, env, e, fuel) == Some(args[0]));
    assert(args.len() == 1);
    assert(crate::semantics::apply_proto(
        crate::graph::ProtoKind::Monitor,
        args,
    ) == Some(args[0]));
    assert(v == args[0]);
    lemma_sound_edge(net, net2, env, e, fuel, v);
}

/// The semantics is deterministic: a graph position produces at most one
/// value for a given input, so the runtime's responses are functions of the
/// graph and the input alone.
pub proof fn law_output_deterministic(
    net: Network,
    env: Seq<Value>,
    e: crate::graph::NodeInput,
    v1: Value,
    v2: Value,
)
    requires
        evals_to(net, env, e, v1),
        evals_to(net, env, e, v2),
    ensures
        v1 == v2,
{
    lemma_evals_to_unique(net, env, e, v1, v2);
}

/// Coalescing keeps only the most recent message of a category: a graph
/// update sent after a backlog supersedes every earlier one, and leaves the
/// other categories untouched.
pub proof fn law_latest_graph_wins(batch: Seq<NodeRuntimeMessage>, g: GraphUpdate)
    ensures
        last_graph(batch.push(NodeRuntimeMessage::GraphUpdate(g))) == Some(g),
        last_execution(batch.push(NodeRuntimeMessage::GraphUpdate(g))) == last_execution(batch),
{
    let pushed = batch.push(NodeRuntimeMessage::GraphUpdate(g));
    assert(pushed.last() == NodeRuntimeMessage::GraphUpdate(g));
    assert(pushed.drop_last() =~= batch);
}

/// The same, for execution requests: a request sent after a backlog is the
/// one that runs.
pub proof fn law_latest_execution_wins(
    batch: Seq<NodeRuntimeMessage>,
    r: crate::messages::ExecutionRequest,
)
    ensures
        last_execution(batch.push(NodeRuntimeMessage::ExecutionRequest(r))) == Some(r),
        last_graph(batch.push(NodeRuntimeMessage::ExecutionRequest(r))) == last_graph(batch),
{
    let pushed = batch.push(NodeRuntimeMessage::ExecutionRequest(r));
    assert(pushed.last() == NodeRuntimeMessage::ExecutionRequest(r));
    assert(pushed.drop_last() =~= batch);
}

} // verus!
