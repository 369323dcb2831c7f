use graph_runtime::client::{ClientError, DocumentCaches, NodeGraphExecutor};
use graph_runtime::compile::CompileError;
use graph_runtime::executor::ExecutionError;
use graph_runtime::graph::{
    input_list, Footprint, Network, Node, NodeId, NodeImpl, NodeInput, NodeList, ProtoKind,
    RenderConfig, Transform, Value, ValueKind,
};
use graph_runtime::messages::{
    CompilationResponse, ExecutionResponse, ExportBounds, ExportConfig, FileType, FrontendMessage,
    Message, NodeGraphUpdate, NodeRuntimeMessage,
};
use graph_runtime::runtime::NodeRuntime;

fn leaf(kind: ProtoKind, inputs: Vec<NodeInput>) -> Node {
    Node {
        inputs: input_list(&inputs),
        implementation: NodeImpl::Proto(kind),
    }
}

fn arena(entries: Vec<(u64, Node)>) -> NodeList {
    let mut list = NodeList::Nil;
    for (id, node) in entries.into_iter().rev() {
        list = NodeList::Cons(NodeId(id), Box::new(node), Box::new(list));
    }
    list
}

fn edge(id: u64) -> NodeInput {
    NodeInput::Node {
        node_id: NodeId(id),
        output_index: 0,
    }
}

fn constant_graph(c: u64) -> Network {
    Network {
        nodes: arena(vec![(
            1,
            leaf(ProtoKind::Identity, vec![NodeInput::Value(Value::Uint(c))]),
        )]),
        exports: input_list(&vec![edge(1)]),
        input_kind: ValueKind::Nothing,
    }
}

fn config() -> RenderConfig {
    RenderConfig {
        viewport: Footprint {
            transform: Transform {
                scale_milli: 1000,
                translate_x_milli: 0,
                translate_y_milli: 0,
            },
            resolution_x: 640,
            resolution_y: 480,
        },
        time_frame: 3,
        hide_artboards: false,
        for_export: false,
    }
}

fn empty_caches() -> DocumentCaches {
    DocumentCaches {
        click_targets: Vec::new(),
        vector_modify: Vec::new(),
    }
}

fn graph_update_count(outbox: &[NodeRuntimeMessage]) -> usize {
    outbox
        .iter()
        .filter(|m| matches!(m, NodeRuntimeMessage::GraphUpdate(_)))
        .count()
}

#[test]
fn unchanged_graph_is_not_resent() {
    let mut client = NodeGraphExecutor::new();
    let network = constant_graph(5);
    client.submit_node_graph_evaluation(&network, config(), None, false);
    client.submit_node_graph_evaluation(&network, config(), None, false);
    assert_eq!(graph_update_count(&client.outbox), 1);

    // A changed graph is sent again; so is a forced refresh.
    let changed = constant_graph(6);
    client.submit_node_graph_evaluation(&changed, config(), None, false);
    assert_eq!(graph_update_count(&client.outbox), 2);
    client.submit_node_graph_evaluation(&changed, config(), None, true);
    assert_eq!(graph_update_count(&client.outbox), 3);
}

#[test]
fn changed_inspect_target_resends_the_graph() {
    let mut client = NodeGraphExecutor::new();
    let network = constant_graph(5);
    client.submit_node_graph_evaluation(&network, config(), None, false);
    client.submit_node_graph_evaluation(&network, config(), Some(NodeId(1)), false);
    assert_eq!(graph_update_count(&client.outbox), 2);
}

#[test]
fn request_ids_are_unique_and_increasing() {
    let mut client = NodeGraphExecutor::new();
    let network = constant_graph(5);
    let a = client.submit_node_graph_evaluation(&network, config(), None, false);
    let b = client.submit_current_node_graph_evaluation(config());
    let c = client.submit_current_node_graph_evaluation(config());
    assert!(a < b && b < c);
}

#[test]
fn full_pipeline_round_trip() {
    let mut client = NodeGraphExecutor::new();
    let mut runtime = NodeRuntime::new();
    let mut caches = empty_caches();
    let mut messages: Vec<Message> = Vec::new();

    let network = constant_graph(5);
    client.submit_node_graph_evaluation(&network, config(), None, false);
    let batch = std::mem::take(&mut client.outbox);
    let updates = runtime.run(batch);
    let polled = client.poll_node_graph_evaluation(&mut caches, updates, &mut messages);
    assert_eq!(polled, Ok(()));
    assert!(messages.contains(&Message::Frontend(
        FrontendMessage::UpdateDocumentArtwork { svg: 5 }
    )));
    assert!(messages.contains(&Message::SendGraph));
    assert!(client.futures.is_empty());
}

#[test]
fn unknown_response_id_is_a_protocol_violation() {
    let mut client = NodeGraphExecutor::new();
    let mut caches = empty_caches();
    let mut messages: Vec<Message> = Vec::new();
    let stray = NodeGraphUpdate::ExecutionResponse(ExecutionResponse {
        execution_id: 123,
        result: Ok(Value::Uint(1)),
        responses: Vec::new(),
        transform: config().viewport.transform,
        vector_modify: Vec::new(),
        inspect_result: None,
    });
    let polled = client.poll_node_graph_evaluation(&mut caches, vec![stray], &mut messages);
    assert_eq!(polled, Err(ClientError::InvalidGenerationId));
}

#[test]
fn failed_compile_clears_the_caches() {
    let mut client = NodeGraphExecutor::new();
    let mut caches = DocumentCaches {
        click_targets: vec![(NodeId(1), 4)],
        vector_modify: vec![(NodeId(1), 5)],
    };
    let mut messages: Vec<Message> = Vec::new();
    let failure = NodeGraphUpdate::CompilationResponse(CompilationResponse {
        result: Err(CompileError::MultipleOutputs),
        node_graph_errors: vec![CompileError::MultipleOutputs],
    });
    let polled = client.poll_node_graph_evaluation(&mut caches, vec![failure], &mut messages);
    assert_eq!(
        polled,
        Err(ClientError::CompilationFailed(CompileError::MultipleOutputs))
    );
    assert!(caches.click_targets.is_empty());
    assert!(caches.vector_modify.is_empty());
    assert!(messages.contains(&Message::SendGraph));
}

#[test]
fn failed_evaluation_clears_the_caches() {
    let mut client = NodeGraphExecutor::new();
    let mut caches = DocumentCaches {
        click_targets: vec![(NodeId(1), 4)],
        vector_modify: vec![(NodeId(1), 5)],
    };
    let mut messages: Vec<Message> = Vec::new();
    let failure = NodeGraphUpdate::ExecutionResponse(ExecutionResponse {
        execution_id: 1,
        result: Err(ExecutionError::NoCompiledProgram),
        responses: Vec::new(),
        transform: config().viewport.transform,
        vector_modify: Vec::new(),
        inspect_result: None,
    });
    let polled = client.poll_node_graph_evaluation(&mut caches, vec![failure], &mut messages);
    assert_eq!(
        polled,
        Err(ClientError::EvaluationFailed(
            ExecutionError::NoCompiledProgram
        ))
    );
    assert!(caches.click_targets.is_empty());
    assert!(caches.vector_modify.is_empty());
}

#[test]
fn export_downloads_a_text_file_for_svg() {
    let mut client = NodeGraphExecutor::new();
    let mut caches = empty_caches();
    let mut messages: Vec<Message> = Vec::new();

    let export_config = ExportConfig {
        file_name: b"artwork.graphite".to_vec(),
        file_type: FileType::Svg,
        scale_percent: 100,
        bounds: ExportBounds::AllArtwork,
        transparent_background: false,
        size_x: 640,
        size_y: 480,
    };
    let id = client.submit_document_export(&constant_graph(5), export_config, config());
    let response = NodeGraphUpdate::ExecutionResponse(ExecutionResponse {
        execution_id: id,
        result: Ok(Value::Svg(42)),
        responses: Vec::new(),
        transform: config().viewport.transform,
        vector_modify: Vec::new(),
        inspect_result: None,
    });
    let polled = client.poll_node_graph_evaluation(&mut caches, vec![response], &mut messages);
    assert_eq!(polled, Ok(()));
    assert!(messages.contains(&Message::Frontend(
        FrontendMessage::TriggerDownloadTextFile {
            document: 42,
            name: b"artwork.svg".to_vec(),
        }
    )));
}

#[test]
fn export_downloads_an_image_otherwise() {
    let mut client = NodeGraphExecutor::new();
    let mut caches = empty_caches();
    let mut messages: Vec<Message> = Vec::new();

    let export_config = ExportConfig {
        file_name: b"artwork".to_vec(),
        file_type: FileType::Png,
        scale_percent: 200,
        bounds: ExportBounds::Selection,
        transparent_background: true,
        size_x: 100,
        size_y: 50,
    };
    let id = client.submit_document_export(&constant_graph(5), export_config, config());
    let response = NodeGraphUpdate::ExecutionResponse(ExecutionResponse {
        execution_id: id,
        result: Ok(Value::Svg(7)),
        responses: Vec::new(),
        transform: config().viewport.transform,
        vector_modify: Vec::new(),
        inspect_result: None,
    });
    let polled = client.poll_node_graph_evaluation(&mut caches, vec![response], &mut messages);
    assert_eq!(polled, Ok(()));
    assert!(messages.contains(&Message::Frontend(
        FrontendMessage::TriggerDownloadImage {
            svg: 7,
            name: b"artwork.png".to_vec(),
            mime: FileType::Png,
            width: 200,
            height: 100,
        }
    )));
}

#[test]
fn export_of_a_non_document_value_is_rejected() {
    let mut client = NodeGraphExecutor::new();
    let mut caches = empty_caches();
    let mut messages: Vec<Message> = Vec::new();

    let export_config = ExportConfig {
        file_name: b"artwork".to_vec(),
        file_type: FileType::Svg,
        scale_percent: 100,
        bounds: ExportBounds::AllArtwork,
        transparent_background: false,
        size_x: 1,
        size_y: 1,
    };
    let id = client.submit_document_export(&constant_graph(5), export_config, config());
    let response = NodeGraphUpdate::ExecutionResponse(ExecutionResponse {
        execution_id: id,
        result: Ok(Value::Uint(3)),
        responses: Vec::new(),
        transform: config().viewport.transform,
        vector_modify: Vec::new(),
        inspect_result: None,
    });
    let polled = client.poll_node_graph_evaluation(&mut caches, vec![response], &mut messages);
    assert_eq!(polled, Err(ClientError::IncorrectRenderType));
}

#[test]
fn fingerprints_separate_different_graphs() {
    let a = graph_runtime::client::network_fingerprint(&constant_graph(5));
    let b = graph_runtime::client::network_fingerprint(&constant_graph(6));
    let a_again = graph_runtime::client::network_fingerprint(&constant_graph(5));
    assert_ne!(a, b);
    assert_eq!(a, a_again);
}

#[test]
fn instrumented_update_invalidates_the_cache() {
    let mut client = NodeGraphExecutor::new();
    let network = constant_graph(5);
    let index = client.update_node_graph_instrumented(&network);
    assert!(index.is_ok());
    assert_eq!(graph_update_count(&client.outbox), 1);
    // The instrumented copy went out, not the original.
    match client.outbox.last() {
        Some(NodeRuntimeMessage::GraphUpdate(g)) => {
            assert!(g.inspect_node.is_none());
        }
        _ => panic!("expected a graph update"),
    }
}
