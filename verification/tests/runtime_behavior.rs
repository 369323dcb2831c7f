use graph_runtime::client::NodeGraphExecutor;
use graph_runtime::compile::CompileError;
use graph_runtime::executor::{ExecutionError, IntrospectError};
use graph_runtime::graph::{
    input_list, Footprint, Network, Node, NodeId, NodeImpl, NodeInput, NodeList, ProtoKind,
    RenderConfig, Transform, Value, ValueKind,
};
use graph_runtime::instrument::Instrumented;
use graph_runtime::messages::{
    CompilationResponse, ExecutionRequest, ExecutionResponse, FrontendMessage, GraphUpdate,
    NodeGraphUpdate, NodeRuntimeMessage,
};
use graph_runtime::path_tool_options::{PathOptionsUpdate, PathOverlayMode, PathToolOptions};
use graph_runtime::runtime::{coalesce, NodeRuntime, RuntimeSlot};

fn build_nodes(entries: Vec<(u64, Node)>) -> NodeList {
    let mut list = NodeList::Nil;
    for (id, node) in entries.into_iter().rev() {
        list = NodeList::Cons(NodeId(id), Box::new(node), Box::new(list));
    }
    list
}

fn proto_node(kind: ProtoKind, inputs: Vec<NodeInput>) -> Node {
    Node {
        inputs: input_list(&inputs),
        implementation: NodeImpl::Proto(kind),
    }
}

fn network_node(sub: Network, inputs: Vec<NodeInput>) -> Node {
    Node {
        inputs: input_list(&inputs),
        implementation: NodeImpl::Network(sub),
    }
}

fn node_ref(id: u64) -> NodeInput {
    NodeInput::Node {
        node_id: NodeId(id),
        output_index: 0,
    }
}

fn uint(x: u64) -> NodeInput {
    NodeInput::Value(Value::Uint(x))
}

fn make_network(entries: Vec<(u64, Node)>, exports: Vec<NodeInput>, kind: ValueKind) -> Network {
    Network {
        nodes: build_nodes(entries),
        exports: input_list(&exports),
        input_kind: kind,
    }
}

fn viewport() -> RenderConfig {
    RenderConfig {
        viewport: Footprint {
            transform: Transform {
                scale_milli: 1000,
                translate_x_milli: 0,
                translate_y_milli: 0,
            },
            resolution_x: 800,
            resolution_y: 600,
        },
        time_frame: 0,
        hide_artboards: false,
        for_export: false,
    }
}

/// A graph with a constant feeding an addition: Constant(5) -> Add(_, 3).
fn const_add_graph() -> Network {
    make_network(
        vec![
            (1, proto_node(ProtoKind::Identity, vec![uint(5)])),
            (2, proto_node(ProtoKind::Add, vec![node_ref(1), uint(3)])),
        ],
        vec![node_ref(2)],
        ValueKind::Nothing,
    )
}

fn graph_update(network: Network) -> NodeRuntimeMessage {
    NodeRuntimeMessage::GraphUpdate(GraphUpdate {
        network,
        inspect_node: None,
    })
}

fn execution_request(id: u64) -> NodeRuntimeMessage {
    NodeRuntimeMessage::ExecutionRequest(ExecutionRequest {
        execution_id: id,
        render_config: viewport(),
    })
}

fn compilation_of(update: &NodeGraphUpdate) -> &CompilationResponse {
    match update {
        NodeGraphUpdate::CompilationResponse(cr) => cr,
        _ => panic!("expected a compilation response"),
    }
}

fn execution_of(update: &NodeGraphUpdate) -> &ExecutionResponse {
    match update {
        NodeGraphUpdate::ExecutionResponse(er) => er,
        _ => panic!("expected an execution response"),
    }
}

#[test]
fn constant_add_graph_executes_to_eight() {
    let mut runtime = NodeRuntime::new();
    let out = runtime.run(vec![graph_update(const_add_graph())]);
    assert_eq!(out.len(), 1);
    assert!(compilation_of(&out[0]).result.is_ok());

    let out = runtime.run(vec![execution_request(41)]);
    assert_eq!(out.len(), 1);
    let er = execution_of(&out[0]);
    assert_eq!(er.execution_id, 41);
    assert_eq!(er.result, Ok(Value::Uint(8)));
}

#[test]
fn instrumented_add_inputs_are_observable() {
    let mut network = const_add_graph();
    let index = Instrumented::new(&mut network).expect("instrumentation succeeds");

    let mut runtime = NodeRuntime::new();
    let out = runtime.run(vec![graph_update(network)]);
    assert!(compilation_of(&out[0]).result.is_ok());
    let out = runtime.run(vec![execution_request(1)]);
    assert_eq!(execution_of(&out[0]).result, Ok(Value::Uint(8)));

    let first = index.grab_all_input(ProtoKind::Add, 0, &runtime);
    assert_eq!(first, vec![Value::Uint(5)]);
    let second = index.grab_all_input(ProtoKind::Add, 1, &runtime);
    assert_eq!(second, vec![Value::Uint(3)]);
}

#[test]
fn instrumentation_preserves_the_output() {
    let mut runtime = NodeRuntime::new();
    runtime.run(vec![graph_update(const_add_graph())]);
    let plain = runtime.run(vec![execution_request(1)]);
    let plain_value = execution_of(&plain[0]).result.clone();

    let mut network = const_add_graph();
    Instrumented::new(&mut network).expect("instrumentation succeeds");
    runtime.run(vec![graph_update(network)]);
    let monitored = runtime.run(vec![execution_request(2)]);
    assert_eq!(execution_of(&monitored[0]).result, plain_value);
    assert_eq!(execution_of(&monitored[0]).result, Ok(Value::Uint(8)));
}

#[test]
fn two_exports_fail_with_multiple_outputs() {
    let network = make_network(
        vec![
            (1, proto_node(ProtoKind::Identity, vec![uint(5)])),
            (2, proto_node(ProtoKind::Identity, vec![uint(6)])),
        ],
        vec![node_ref(1), node_ref(2)],
        ValueKind::Nothing,
    );
    let mut runtime = NodeRuntime::new();
    let out = runtime.run(vec![graph_update(network)]);
    let cr = compilation_of(&out[0]);
    assert_eq!(cr.result, Err(CompileError::MultipleOutputs));
    assert_eq!(cr.node_graph_errors, vec![CompileError::MultipleOutputs]);
    assert!(runtime.executor.program.is_none());
}

#[test]
fn zero_exports_fail_with_no_output() {
    let network = make_network(
        vec![(1, proto_node(ProtoKind::Identity, vec![uint(5)]))],
        vec![],
        ValueKind::Nothing,
    );
    let mut runtime = NodeRuntime::new();
    let out = runtime.run(vec![graph_update(network)]);
    assert_eq!(compilation_of(&out[0]).result, Err(CompileError::NoOutput));
}

#[test]
fn dangling_reference_fails_structurally() {
    let network = make_network(
        vec![(1, proto_node(ProtoKind::Identity, vec![node_ref(99)]))],
        vec![node_ref(1)],
        ValueKind::Nothing,
    );
    let mut runtime = NodeRuntime::new();
    let out = runtime.run(vec![graph_update(network)]);
    assert_eq!(
        compilation_of(&out[0]).result,
        Err(CompileError::InvalidStructure)
    );
}

#[test]
fn runtime_stays_usable_after_failed_compile() {
    let bad = make_network(vec![], vec![], ValueKind::Nothing);
    let mut runtime = NodeRuntime::new();
    let out = runtime.run(vec![graph_update(bad)]);
    assert!(compilation_of(&out[0]).result.is_err());

    let out = runtime.run(vec![graph_update(const_add_graph()), execution_request(9)]);
    assert_eq!(out.len(), 2);
    assert!(compilation_of(&out[0]).result.is_ok());
    assert_eq!(execution_of(&out[1]).result, Ok(Value::Uint(8)));
}

#[test]
fn superseded_request_never_answers() {
    // R1 is sent, then a changed graph and R2 arrive before the drain:
    // only R2's response is ever produced.
    let changed = make_network(
        vec![
            (1, proto_node(ProtoKind::Identity, vec![uint(7)])),
            (2, proto_node(ProtoKind::Add, vec![node_ref(1), uint(3)])),
        ],
        vec![node_ref(2)],
        ValueKind::Nothing,
    );
    let mut runtime = NodeRuntime::new();
    runtime.run(vec![graph_update(const_add_graph())]);
    let out = runtime.run(vec![
        execution_request(1),
        graph_update(changed),
        execution_request(2),
    ]);
    assert_eq!(out.len(), 2);
    assert!(compilation_of(&out[0]).result.is_ok());
    let er = execution_of(&out[1]);
    assert_eq!(er.execution_id, 2);
    assert_eq!(er.result, Ok(Value::Uint(10)));
}

#[test]
fn coalesce_keeps_the_latest_of_each_category() {
    let batch = vec![
        execution_request(1),
        graph_update(const_add_graph()),
        execution_request(2),
        execution_request(3),
    ];
    let slots = coalesce(batch);
    assert!(slots.font.is_none());
    assert!(slots.preferences.is_none());
    assert!(slots.graph.is_some());
    assert_eq!(slots.execution.map(|e| e.execution_id), Some(3));
}

#[test]
fn inspect_subscription_returns_target_output() {
    let mut runtime = NodeRuntime::new();
    let out = runtime.run(vec![NodeRuntimeMessage::GraphUpdate(GraphUpdate {
        network: const_add_graph(),
        inspect_node: Some(NodeId(1)),
    })]);
    assert!(compilation_of(&out[0]).result.is_ok());
    let out = runtime.run(vec![execution_request(4)]);
    let er = execution_of(&out[0]);
    assert_eq!(er.result, Ok(Value::Uint(8)));
    let inspect = er.inspect_result.as_ref().expect("a subscription is active");
    assert_eq!(inspect.inspect_node, NodeId(1));
    assert_eq!(inspect.introspected_data, Some(Value::Uint(5)));
}

#[test]
fn thumbnail_refreshes_once_per_graph_change() {
    // A monitor inside a nested network observes a renderable value; its
    // owning node gets a thumbnail, notified only while thumbnails refresh.
    let sub = make_network(
        vec![(
            10,
            proto_node(ProtoKind::Monitor, vec![NodeInput::Value(Value::Graphic(7))]),
        )],
        vec![node_ref(10)],
        ValueKind::Nothing,
    );
    let network = make_network(
        vec![(1, network_node(sub, vec![]))],
        vec![node_ref(1)],
        ValueKind::Nothing,
    );
    let mut runtime = NodeRuntime::new();
    runtime.run(vec![graph_update(network)]);
    let out = runtime.run(vec![execution_request(1)]);
    let er = execution_of(&out[0]);
    assert_eq!(
        er.responses,
        vec![FrontendMessage::UpdateNodeThumbnail {
            id: NodeId(1),
            value: 7
        }]
    );

    // No graph change: the sweep does not regenerate thumbnails.
    let out = runtime.run(vec![execution_request(2)]);
    assert_eq!(execution_of(&out[0]).responses, vec![]);
}

#[test]
fn tabular_value_updates_vector_snapshot() {
    let sub = make_network(
        vec![(
            10,
            proto_node(ProtoKind::Monitor, vec![NodeInput::Value(Value::Table(9))]),
        )],
        vec![node_ref(10)],
        ValueKind::Nothing,
    );
    let network = make_network(
        vec![(1, network_node(sub, vec![]))],
        vec![node_ref(1)],
        ValueKind::Nothing,
    );
    let mut runtime = NodeRuntime::new();
    runtime.run(vec![graph_update(network)]);
    let out = runtime.run(vec![execution_request(1)]);
    let er = execution_of(&out[0]);
    assert_eq!(er.vector_modify, vec![(NodeId(1), 9)]);
    assert_eq!(er.responses, vec![]);
}

#[test]
fn executor_without_program_reports_errors() {
    let mut runtime = NodeRuntime::new();
    let out = runtime.run(vec![execution_request(5)]);
    assert_eq!(
        execution_of(&out[0]).result,
        Err(ExecutionError::NoCompiledProgram)
    );
    assert_eq!(
        runtime.executor.introspect(&vec![NodeId(1)]),
        Err(IntrospectError::RuntimeNotReady)
    );
}

#[test]
fn unknown_path_is_not_found() {
    let mut runtime = NodeRuntime::new();
    runtime.run(vec![graph_update(const_add_graph()), execution_request(1)]);
    assert_eq!(
        runtime.executor.introspect(&vec![NodeId(77)]),
        Err(IntrospectError::PathNotFound)
    );
}

#[test]
fn mismatched_input_type_is_rejected() {
    let network = make_network(
        vec![(1, proto_node(ProtoKind::Identity, vec![uint(5)]))],
        vec![node_ref(1)],
        ValueKind::Uint,
    );
    let mut runtime = NodeRuntime::new();
    runtime.run(vec![graph_update(network)]);
    let out = runtime.run(vec![execution_request(1)]);
    assert_eq!(
        execution_of(&out[0]).result,
        Err(ExecutionError::InvalidInputType {
            expected: ValueKind::Uint,
            actual: ValueKind::Render,
        })
    );
}

#[test]
fn render_graph_receives_the_execution_config() {
    let network = make_network(
        vec![(1, proto_node(ProtoKind::Identity, vec![NodeInput::Import(0)]))],
        vec![node_ref(1)],
        ValueKind::Render,
    );
    let mut runtime = NodeRuntime::new();
    runtime.run(vec![graph_update(network)]);
    let out = runtime.run(vec![execution_request(1)]);
    assert_eq!(
        execution_of(&out[0]).result,
        Ok(Value::Render(viewport()))
    );
}

#[test]
fn grab_input_by_exact_path() {
    let mut network = const_add_graph();
    let index = Instrumented::new(&mut network).expect("instrumentation succeeds");
    let mut runtime = NodeRuntime::new();
    runtime.run(vec![graph_update(network), execution_request(1)]);

    let by_path = index.grab_protonode_input(&vec![NodeId(2)], 0, &runtime);
    assert_eq!(by_path, Some(Value::Uint(5)));
    let by_layer = index.grab_input_from_layer(Some(NodeId(2)), 1, &runtime);
    assert_eq!(by_layer, Some(Value::Uint(3)));
    assert_eq!(index.grab_input_from_layer(None, 0, &runtime), None);
    assert_eq!(
        index.grab_protonode_input(&vec![NodeId(42)], 0, &runtime),
        None
    );
}

#[test]
fn runtime_slot_replaces_the_instance() {
    let mut slot = RuntimeSlot::new();
    assert!(slot.run_node_graph(vec![execution_request(1)]).is_none());
    assert!(slot.replace_node_runtime(NodeRuntime::new()).is_none());
    let out = slot
        .run_node_graph(vec![graph_update(const_add_graph())])
        .expect("a runtime is installed");
    assert!(compilation_of(&out[0]).result.is_ok());
    assert!(slot.replace_node_runtime(NodeRuntime::new()).is_some());
}

#[test]
fn two_add_occurrences_keep_graph_order() {
    // Two additions in one graph: one item per occurrence, in graph order.
    let mut network = make_network(
        vec![
            (1, proto_node(ProtoKind::Identity, vec![uint(5)])),
            (2, proto_node(ProtoKind::Add, vec![node_ref(1), uint(3)])),
            (3, proto_node(ProtoKind::Add, vec![node_ref(2), uint(10)])),
        ],
        vec![node_ref(3)],
        ValueKind::Nothing,
    );
    let index = Instrumented::new(&mut network).expect("instrumentation succeeds");
    let mut runtime = NodeRuntime::new();
    let out = runtime.run(vec![graph_update(network), execution_request(1)]);
    assert_eq!(execution_of(&out[1]).result, Ok(Value::Uint(18)));

    let firsts = index.grab_all_input(ProtoKind::Add, 0, &runtime);
    assert_eq!(firsts, vec![Value::Uint(5), Value::Uint(8)]);
    let seconds = index.grab_all_input(ProtoKind::Add, 1, &runtime);
    assert_eq!(seconds, vec![Value::Uint(3), Value::Uint(10)]);
}

#[test]
fn introspection_reaches_into_a_wrapped_network() {
    let sub = make_network(
        vec![(
            10,
            proto_node(ProtoKind::Monitor, vec![NodeInput::Value(Value::Graphic(7))]),
        )],
        vec![node_ref(10)],
        ValueKind::Nothing,
    );
    let network = make_network(
        vec![(1, network_node(sub, vec![]))],
        vec![node_ref(1)],
        ValueKind::Nothing,
    );
    let mut runtime = NodeRuntime::new();
    let mut client = NodeGraphExecutor::new();
    client.submit_node_graph_evaluation(&network, viewport(), None, false);
    runtime.run(std::mem::take(&mut client.outbox));

    let observed =
        client.introspect_node_in_network(&runtime, &network, &vec![NodeId(1)], NodeId(10));
    assert_eq!(observed, Some(Value::Graphic(7)));
    let missing =
        client.introspect_node_in_network(&runtime, &network, &vec![NodeId(1)], NodeId(99));
    assert_eq!(missing, None);
}

#[test]
fn font_update_recompiles_silently() {
    let mut runtime = NodeRuntime::new();
    runtime.run(vec![graph_update(const_add_graph())]);

    // A font change alone answers nothing; the recompile is silent because a
    // compile error was already reported on the original attempt.
    let font = graph_runtime::messages::FontCache { revision: 2 };
    let out = runtime.run(vec![NodeRuntimeMessage::FontCacheUpdate(font)]);
    assert!(out.is_empty());
    assert_eq!(runtime.font_cache, font);
    assert!(runtime.executor.program.is_some());

    let out = runtime.run(vec![execution_request(6)]);
    assert_eq!(execution_of(&out[0]).result, Ok(Value::Uint(8)));
}

#[test]
fn duplicate_node_ids_refuse_instrumentation() {
    let mut network = make_network(
        vec![
            (1, proto_node(ProtoKind::Identity, vec![uint(5)])),
            (1, proto_node(ProtoKind::Identity, vec![uint(6)])),
        ],
        vec![node_ref(1)],
        ValueKind::Nothing,
    );
    assert!(Instrumented::new(&mut network).is_none());
}

#[test]
fn exhausted_id_space_withholds_the_subscription() {
    // A node already carries the largest representable id, so no fresh
    // monitor id exists: the update compiles without a subscription.
    let network = make_network(
        vec![(u64::MAX, proto_node(ProtoKind::Identity, vec![uint(5)]))],
        vec![node_ref(u64::MAX)],
        ValueKind::Nothing,
    );
    let mut runtime = NodeRuntime::new();
    let out = runtime.run(vec![NodeRuntimeMessage::GraphUpdate(GraphUpdate {
        network,
        inspect_node: Some(NodeId(u64::MAX)),
    })]);
    assert!(compilation_of(&out[0]).result.is_ok());
    let out = runtime.run(vec![execution_request(1)]);
    let er = execution_of(&out[0]);
    assert_eq!(er.result, Ok(Value::Uint(5)));
    assert!(er.inspect_result.is_none());
}

#[test]
fn path_tool_options_default_and_update() {
    let mut options = PathToolOptions::default();
    assert_eq!(
        options.path_overlay_mode,
        PathOverlayMode::SelectedPointHandles
    );
    options.apply(PathOptionsUpdate::OverlayModeType(
        PathOverlayMode::FrontierHandles,
    ));
    assert_eq!(options.path_overlay_mode, PathOverlayMode::FrontierHandles);
}
