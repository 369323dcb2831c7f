//! The caller-facing client handle: deduplicates graph updates, issues
//! execution requests keyed by a unique id, and resolves asynchronous
//! responses back to the matching requests.

use vstd::prelude::*;

use crate::compile::CompileError;
use crate::executor::ExecutionError;
use crate::graph::{InputList, Network, Node, NodeId, NodeImpl, NodeInput, NodeList, ProtoKind, RenderConfig, Transform, Value, ValueKind};
use crate::messages::{frontend_message_views, message_view, message_views, ExecutionRequest, ExportConfig, FileType, FrontendMessage, FrontendMessageView, GraphUpdate, Message, MessageView, NodeGraphUpdate, NodeRuntimeMessage};

verus! {

/// One bit-mixing step of the content fingerprint.
pub open spec fn mix(h: u64, x: u64) -> u64 {
    ((h << 5) | (h >> 59)) ^ x
}

fn mix_exec(h: u64, x: u64) -> (r: u64)
    ensures
        r == mix(h, x),
{
    ((h << 5u64) | (h >> 59u64)) ^ x
}

pub open spec fn kind_tag(k: ValueKind) -> u64 {
    match k {
        ValueKind::Nothing => 30,
        ValueKind::Uint => 31,
        ValueKind::Boolean => 32,
        ValueKind::Graphic => 33,
        ValueKind::Table => 34,
        ValueKind::Render => 35,
        ValueKind::Svg => 36,
    }
}

pub open spec fn fp_value(h: u64, v: Value) -> u64 {
    match v {
        Value::Nothing => mix(h, 1),
        Value::Uint(x) => mix(mix(h, 2), x),
        Value::Boolean(b) => mix(
            h,
            if b {
                3
            } else {
                4
            },
        ),
        Value::Graphic(g) => mix(mix(h, 5), g),
        Value::Table(t) => mix(mix(h, 6), t),
        Value::Render(cfg) => mix(
            mix(mix(mix(h, 7), cfg.time_frame), cfg.viewport.resolution_x),
            cfg.viewport.resolution_y,
        ),
        Value::Svg(s) => mix(mix(h, 8), s),
    }
}

pub open spec fn fp_input(h: u64, inp: NodeInput) -> u64 {
    match inp {
        NodeInput::Node { node_id, output_index } => mix(mix(mix(h, 9), node_id.0), output_index),
        NodeInput::Value(v) => fp_value(mix(h, 10), v),
        NodeInput::Import(i) => mix(mix(h, 11), i as u64),
    }
}

pub open spec fn fp_inputs(h: u64, l: InputList) -> u64
    decreases l,
{
    match l {
        InputList::Nil => mix(h, 12),
        InputList::Cons(first, rest) => fp_inputs(fp_input(h, first), *rest),
    }
}

pub open spec fn fp_proto(kind: ProtoKind) -> u64 {
    match kind {
        ProtoKind::Monitor => 20,
        ProtoKind::Identity => 21,
        ProtoKind::Add => 22,
        ProtoKind::Render => 23,
    }
}

pub open spec fn fp_nodes(h: u64, nodes: NodeList) -> u64
    decreases nodes, 1int,
{
    match nodes {
        NodeList::Nil => mix(h, 13),
        NodeList::Cons(id, node, rest) => fp_nodes(fp_node(mix(h, id.0), *node), *rest),
    }
}

pub open spec fn fp_node(h: u64, node: Node) -> u64
    decreases node, 1int,
{
    let hi = fp_inputs(h, node.inputs);
    match node.implementation {
        NodeImpl::Proto(kind) => mix(hi, fp_proto(kind)),
        NodeImpl::Network(sub) => fp_network(mix(hi, 14), sub),
    }
}

pub open spec fn fp_network(h: u64, net: Network) -> u64
    decreases net, 2int,
{
    mix(fp_inputs(fp_nodes(h, net.nodes), net.exports), kind_tag(net.input_kind))
}

/// The content hash a graph is deduplicated by.
pub open spec fn spec_fingerprint(net: Network) -> u64 {
    fp_network(0, net)
}

fn value_fp(h: u64, v: &Value) -> (r: u64)
    ensures
        r == fp_value(h, *v),
{
    match v {
        Value::Nothing => mix_exec(h, 1),
        Value::Uint(x) => mix_exec(mix_exec(h, 2), *x),
        Value::Boolean(b) => mix_exec(
            h,
            if *b {
                3
            } else {
                4
            },
        ),
        Value::Graphic(g) => mix_exec(mix_exec(h, 5), *g),
        Value::Table(t) => mix_exec(mix_exec(h, 6), *t),
        Value::Render(cfg) => mix_exec(
            mix_exec(mix_exec(mix_exec(h, 7), cfg.time_frame), cfg.viewport.resolution_x),
            cfg.viewport.resolution_y,
        ),
        Value::Svg(s) => mix_exec(mix_exec(h, 8), *s),
    }
}

fn input_fp(h: u64, inp: &NodeInput) -> (r: u64)
    ensures
        r == fp_input(h, *inp),
{
    match inp {
        NodeInput::Node { node_id, output_index } => mix_exec(
            mix_exec(mix_exec(h, 9), node_id.0),
            *output_index,
        ),
        NodeInput::Value(v) => value_fp(mix_exec(h, 10), v),
        NodeInput::Import(i) => mix_exec(mix_exec(h, 11), *i as u64),
    }
}

fn inputs_fp(h: u64, l: &InputList) -> (r: u64)
    ensures
        r == fp_inputs(h, *l),
    decreases *l,
{
    match l {
        InputList::Nil => mix_exec(h, 12),
        InputList::Cons(first, rest) => inputs_fp(input_fp(h, first), rest),
    }
}

fn nodes_fp(h: u64, nodes: &NodeList) -> (r: u64)
    ensures
        r == fp_nodes(h, *nodes),
    decreases *nodes, 1int,
{
    match nodes {
        NodeList::Nil => mix_exec(h, 13),
        NodeList::Cons(id, node, rest) => nodes_fp(node_fp(mix_exec(h, id.0), node), rest),
    }
}

fn node_fp(h: u64, node: &Node) -> (r: u64)
    ensures
        r == fp_node(h, *node),
    decreases *node, 1int,
{
    let hi = inputs_fp(h, &node.inputs);
    match &node.implementation {
        NodeImpl::Proto(kind) => {
            let tag: u64 = match kind {
                ProtoKind::Monitor => 20,
                ProtoKind::Identity => 21,
                ProtoKind::Add => 22,
                ProtoKind::Render => 23,
            };
            mix_exec(hi, tag)
        },
        NodeImpl::Network(sub) => network_fp(mix_exec(hi, 14), sub),
    }
}

fn network_fp(h: u64, net: &Network) -> (r: u64)
    ensures
        r == fp_network(h, *net),
    decreases *net, 2int,
{
    let hn = nodes_fp(h, &net.nodes);
    let he = inputs_fp(hn, &net.exports);
    let tag: u64 = match net.input_kind {
        ValueKind::Nothing => 30,
        ValueKind::Uint => 31,
        ValueKind::Boolean => 32,
        ValueKind::Graphic => 33,
        ValueKind::Table => 34,
        ValueKind::Render => 35,
        ValueKind::Svg => 36,
    };
    mix_exec(he, tag)
}

/// Compute the content hash of a graph.
pub fn network_fingerprint(net: &Network) -> (r: u64)
    ensures
        r == spec_fingerprint(*net),
{
    network_fp(0, net)
}

/// Why the client rejected a response or an output value.
#[derive(Clone, Copy, PartialEq, Eq, Structural, Debug)]
pub enum ClientError {
    /// The runtime reported a failed evaluation.
    EvaluationFailed(ExecutionError),
    /// The runtime reported a failed compilation.
    CompilationFailed(CompileError),
    /// A response id matches no in-flight request: a protocol violation.
    InvalidGenerationId,
    /// An export execution produced something besides a rendered document.
    IncorrectRenderType,
    /// A preview execution produced a value no renderer accepts.
    InvalidOutputType,
    /// The graph could not be instrumented.
    InstrumentationFailed,
}

/// The request-specific context stored at submission time.
pub struct ExecutionContext {
    /// Set when this execution is for a file export.
    pub export_config: Option<ExportConfig>,
}

/// First context bound to a request id, if any.
pub open spec fn ctx_assoc(s: Seq<(u64, ExecutionContext)>, id: u64) -> Option<ExecutionContext>
    decreases s.len(),
{
    if s.len() == 0 {
        None
    } else if s[0].0 == id {
        Some(s[0].1)
    } else {
        ctx_assoc(s.drop_first(), id)
    }
}

/// The store with the first binding of `id` removed.
pub open spec fn ctx_remove(s: Seq<(u64, ExecutionContext)>, id: u64) -> Seq<
    (u64, ExecutionContext),
>
    decreases s.len(),
{
    if s.len() == 0 {
        s
    } else if s[0].0 == id {
        s.drop_first()
    } else {
        seq![s[0]] + ctx_remove(s.drop_first(), id)
    }
}

pub proof fn lemma_ctx_skip(s: Seq<(u64, ExecutionContext)>, id: u64, i: int)
    requires
        0 <= i < s.len(),
        forall|j: int| 0 <= j < i ==> (#[trigger] s[j]).0 != id,
    ensures
        ctx_assoc(s, id) == if s[i].0 == id {
            Some(s[i].1)
        } else {
            ctx_assoc(s.skip(i + 1), id)
        },
        s[i].0 == id ==> ctx_remove(s, id) == s.take(i) + s.skip(i + 1),
    decreases i,
{
    if i == 0 {
        assert(s.drop_first() =~= s.skip(1));
        if s[0].0 == id {
            assert(s.take(0) + s.skip(1) =~= s.drop_first());
        }
    } else {
        lemma_ctx_skip(s.drop_first(), id, i - 1);
        assert(s.drop_first()[i - 1] == s[i]);
        assert(forall|j: int|
            0 <= j < i - 1 ==> (#[trigger] s.drop_first()[j]).0 != id);
        assert(s.drop_first().skip(i) =~= s.skip(i + 1));
        if s[i].0 == id {
            assert(ctx_remove(s, id) == seq![s[0]] + ctx_remove(s.drop_first(), id));
            assert(seq![s[0]] + (s.drop_first().take(i - 1) + s.drop_first().skip(i)) =~= s.take(i)
                + s.skip(i + 1));
        }
    }
}

/// Look up and remove the context of a request id.
pub fn take_context(s: &mut Vec<(u64, ExecutionContext)>, id: u64) -> (r: Option<ExecutionContext>)
    ensures
        match r {
            Some(ctx) => ctx_assoc(old(s)@, id) == Some(ctx) && final(s)@ == ctx_remove(
                old(s)@,
                id,
            ),
            None => ctx_assoc(old(s)@, id) is None && final(s)@ == old(s)@,
        },
{
    let mut i: usize = 0;
    while i < s.len()
        invariant
            0 <= i <= s@.len(),
            s@ == old(s)@,
            forall|j: int| 0 <= j < i ==> (#[trigger] s@[j]).0 != id,
        decreases s@.len() - i,
    {
        if s[i].0 == id {
            proof {
                lemma_ctx_skip(s@, id, i as int);
            }
            let (_, ctx) = s.remove(i);
            return Some(ctx);
        }
        i += 1;
    }
    proof {
        lemma_ctx_assoc_none(s@, id);
    }
    None
}

pub proof fn lemma_ctx_assoc_none(s: Seq<(u64, ExecutionContext)>, id: u64)
    requires
        forall|j: int| 0 <= j < s.len() ==> (#[trigger] s[j]).0 != id,
    ensures
        ctx_assoc(s, id) is None,
    decreases s.len(),
{
    if s.len() > 0 {
        assert(forall|j: int|
            0 <= j < s.drop_first().len() ==> (#[trigger] s.drop_first()[j]).0 != id);
        lemma_ctx_assoc_none(s.drop_first(), id);
    }
}

/// Document-derived caches the client clears when the graph becomes
/// un-renderable.
pub struct DocumentCaches {
    /// The spatial hit-testing index.
    pub click_targets: Vec<(NodeId, u64)>,
    /// Cached vector data snapshots.
    pub vector_modify: Vec<(NodeId, u64)>,
}

/// The suffix of saved documents.
pub fn file_save_suffix() -> (r: Vec<u8>)
    ensures
        r@ == spec_file_save_suffix(),
{
    let mut v: Vec<u8> = Vec::new();
    v.push(46);
    v.push(103);
    v.push(114);
    v.push(97);
    v.push(112);
    v.push(104);
    v.push(105);
    v.push(116);
    v.push(101);
    proof {
        assert(v@ =~= spec_file_save_suffix());
    }
    v
}

/// ".graphite" as bytes.
pub open spec fn spec_file_save_suffix() -> Seq<u8> {
    seq![46u8, 103u8, 114u8, 97u8, 112u8, 104u8, 105u8, 116u8, 101u8]
}

/// The file suffix of an export format: ".svg", ".png" or ".jpg".
pub open spec fn spec_type_suffix(ft: FileType) -> Seq<u8> {
    match ft {
        FileType::Svg => seq![46u8, 115u8, 118u8, 103u8],
        FileType::Png => seq![46u8, 112u8, 110u8, 103u8],
        FileType::Jpg => seq![46u8, 106u8, 112u8, 103u8],
    }
}

pub fn type_suffix(ft: FileType) -> (r: Vec<u8>)
    ensures
        r@ == spec_type_suffix(ft),
{
    let mut v: Vec<u8> = Vec::new();
    v.push(46);
    match ft {
        FileType::Svg => {
            v.push(115);
            v.push(118);
            v.push(103);
        },
        FileType::Png => {
            v.push(112);
            v.push(110);
            v.push(103);
        },
        FileType::Jpg => {
            v.push(106);
            v.push(112);
            v.push(103);
        },
    }
    proof {
        assert(v@ =~= spec_type_suffix(ft));
    }
    v
}

/// The exported file's name: the document suffix is replaced by the format
/// suffix when present, otherwise the format suffix is appended.
pub open spec fn spec_export_name(file_name: Seq<u8>, ft: FileType) -> Seq<u8> {
    if spec_file_save_suffix().is_suffix_of(file_name) {
        file_name.take(file_name.len() - spec_file_save_suffix().len()) + spec_type_suffix(ft)
    } else {
        file_name + spec_type_suffix(ft)
    }
}

/// Build the exported file's name.
pub fn export_name(file_name: &Vec<u8>, ft: FileType) -> (r: Vec<u8>)
    ensures
        r@ == spec_export_name(file_name@, ft),
{
    let suffix = file_save_suffix();
    let keep: usize = if file_name.len() >= suffix.len() {
        let base = file_name.len() - suffix.len();
        let mut matches_suffix = true;
        let mut k: usize = 0;
        while k < suffix.len()
            invariant
                0 <= k <= suffix@.len(),
                base == file_name@.len() - suffix@.len(),
                base + suffix@.len() == file_name@.len(),
                file_name@.len() <= usize::MAX,
                matches_suffix == (forall|m: int|
                    0 <= m < k ==> file_name@[base + m] == suffix@[m]),
            decreases suffix@.len() - k,
        {
            if file_name[base + k] != suffix[k] {
                matches_suffix = false;
                assert(!(forall|m: int|
                    0 <= m < k + 1 ==> file_name@[base + m] == suffix@[m])) by {
                    assert(file_name@[base + k as int] != suffix@[k as int]);
                }
                k += 1;
            } else {
                k += 1;
            }
        }
        if matches_suffix {
            proof {
                assert(suffix@.is_suffix_of(file_name@)) by {
                    assert(file_name@.skip(base as int) =~= suffix@);
                }
            }
            base
        } else {
            proof {
                assert(!suffix@.is_suffix_of(file_name@)) by {
                    if suffix@.is_suffix_of(file_name@) {
                        let m = choose|m: int|
                            0 <= m < suffix@.len() && file_name@[base + m] != suffix@[m];
                        assert(file_name@.skip(base as int)[m] == file_name@[base + m]);
                    }
                }
            }
            file_name.len()
        }
    } else {
        proof {
            assert(!suffix@.is_suffix_of(file_name@));
        }
        file_name.len()
    };
    let mut out: Vec<u8> = Vec::new();
    let mut i: usize = 0;
    while i < keep
        invariant
            0 <= i <= keep <= file_name@.len(),
            out@ == file_name@.take(i as int),
        decreases keep - i,
    {
        out.push(file_name[i]);
        proof {
            assert(out@ =~= file_name@.take(i + 1));
        }
        i += 1;
    }
    let tail = type_suffix(ft);
    let mut j: usize = 0;
    let ghost head = out@;
    while j < tail.len()
        invariant
            0 <= j <= tail@.len(),
            tail@ == spec_type_suffix(ft),
            out@ == head + tail@.take(j as int),
        decreases tail@.len() - j,
    {
        out.push(tail[j]);
        proof {
            assert(out@ =~= head + tail@.take(j + 1));
        }
        j += 1;
    }
    proof {
        assert(tail@.take(tail@.len() as int) =~= tail@);
        if keep == file_name@.len() {
            assert(file_name@.take(keep as int) =~= file_name@);
        }
        assert(out@ =~= spec_export_name(file_name@, ft));
    }
    out
}


/// Whether a preview value has a debug rendering.
pub open spec fn debug_renderable(v: Value) -> bool {
    match v {
        Value::Boolean(_) => true,
        Value::Uint(_) => true,
        Value::Graphic(_) => true,
        Value::Table(_) => true,
        _ => false,
    }
}

/// An exported dimension scaled by a percentage, saturating.
pub open spec fn scaled_size(x: u64, percent: u64) -> u64 {
    if x * percent <= u64::MAX {
        ((x * percent) as u64) / 100
    } else {
        u64::MAX / 100
    }
}

fn scale_dimension(x: u64, percent: u64) -> (r: u64)
    ensures
        r == scaled_size(x, percent),
{
    if percent != 0 && x > u64::MAX / percent {
        proof {
            assert(x * percent > u64::MAX) by (nonlinear_arith)
                requires
                    percent != 0,
                    x > u64::MAX / percent,
                    u64::MAX / percent == u64::MAX as int / percent as int,
            ;
        }
        u64::MAX / 100
    } else {
        if percent == 0 {
            0
        } else {
            proof {
                assert(x * percent <= u64::MAX) by (nonlinear_arith)
                    requires
                        percent != 0,
                        x <= u64::MAX / percent,
                        u64::MAX / percent == u64::MAX as int / percent as int,
                ;
            }
            (x * percent) / 100
        }
    }
}

/// The client-side state folded over a batch of responses: the in-flight
/// requests and the document caches. Processing stops at the first error.
#[verifier::ext_equal]
pub struct PollState {
    pub futures: Seq<(u64, ExecutionContext)>,
    pub click_targets: Seq<(NodeId, u64)>,
    pub vector_modify: Seq<(NodeId, u64)>,
    /// The views of the editor messages queued so far.
    pub messages: Seq<MessageView>,
}

/// The spreadsheet update appended when a subscription is active and the
/// execution carried an inspected value.
pub open spec fn with_inspect_update(
    msgs: Seq<MessageView>,
    inspect_active: bool,
    inspect_result: Option<crate::messages::InspectResult>,
) -> Seq<MessageView> {
    if inspect_active {
        match inspect_result {
            Some(ir) => msgs.push(MessageView::SpreadsheetUpdateLayout { inspect_result: ir }),
            None => msgs,
        }
    } else {
        msgs
    }
}

/// How one response updates the client state and the queued messages, and
/// whether processing goes on. A failed evaluation or compilation clears the
/// document caches and surfaces its reporting messages; a response with no
/// matching in-flight request is a protocol violation.
pub open spec fn poll_step(st: PollState, inspect_active: bool, resp: NodeGraphUpdate) -> (
    PollState,
    Result<(), ClientError>,
) {
    match resp {
        NodeGraphUpdate::ExecutionResponse(er) => {
            let opened = st.messages.push(MessageView::OverlaysDraw);
            match er.result {
                Err(e) => (
                    PollState {
                        futures: st.futures,
                        click_targets: Seq::empty(),
                        vector_modify: Seq::empty(),
                        messages: opened,
                    },
                    Err(ClientError::EvaluationFailed(e)),
                ),
                Ok(output) => {
                    let forwarded = opened + frontend_message_views(er.responses@);
                    match ctx_assoc(st.futures, er.execution_id) {
                        None => (
                            PollState {
                                futures: st.futures,
                                click_targets: st.click_targets,
                                vector_modify: er.vector_modify@,
                                messages: forwarded,
                            },
                            Err(ClientError::InvalidGenerationId),
                        ),
                        Some(ctx) => {
                            let remaining = ctx_remove(st.futures, er.execution_id);
                            match ctx.export_config {
                                Some(cfg) => match output {
                                    Value::Svg(svg) => {
                                        let download = if cfg.file_type == FileType::Svg {
                                            MessageView::Frontend(
                                                FrontendMessageView::TriggerDownloadTextFile {
                                                    document: svg,
                                                    name: spec_export_name(
                                                        cfg.file_name@,
                                                        FileType::Svg,
                                                    ),
                                                },
                                            )
                                        } else {
                                            MessageView::Frontend(
                                                FrontendMessageView::TriggerDownloadImage {
                                                    svg,
                                                    name: spec_export_name(
                                                        cfg.file_name@,
                                                        cfg.file_type,
                                                    ),
                                                    mime: cfg.file_type,
                                                    width: scaled_size(
                                                        cfg.size_x,
                                                        cfg.scale_percent,
                                                    ),
                                                    height: scaled_size(
                                                        cfg.size_y,
                                                        cfg.scale_percent,
                                                    ),
                                                },
                                            )
                                        };
                                        (
                                            PollState {
                                                futures: remaining,
                                                click_targets: st.click_targets,
                                                vector_modify: er.vector_modify@,
                                                messages: with_inspect_update(
                                                    forwarded.push(download),
                                                    inspect_active,
                                                    er.inspect_result,
                                                ),
                                            },
                                            Ok(()),
                                        )
                                    },
                                    _ => (
                                        PollState {
                                            futures: remaining,
                                            click_targets: st.click_targets,
                                            vector_modify: er.vector_modify@,
                                            messages: forwarded,
                                        },
                                        Err(ClientError::IncorrectRenderType),
                                    ),
                                },
                                None => {
                                    if debug_renderable(output) || output is Svg {
                                        let svg = match output {
                                            Value::Svg(x) => x,
                                            v => crate::semantics::value_token(v),
                                        };
                                        let rendered = forwarded.push(
                                            MessageView::Frontend(
                                                FrontendMessageView::UpdateDocumentArtwork { svg },
                                            ),
                                        ).push(
                                            MessageView::EndBuffer { transform: er.transform },
                                        ).push(MessageView::RenderScrollbars).push(
                                            MessageView::RenderRulers,
                                        ).push(MessageView::OverlaysDraw);
                                        (
                                            PollState {
                                                futures: remaining,
                                                click_targets: st.click_targets,
                                                vector_modify: er.vector_modify@,
                                                messages: with_inspect_update(
                                                    rendered,
                                                    inspect_active,
                                                    er.inspect_result,
                                                ),
                                            },
                                            Ok(()),
                                        )
                                    } else {
                                        (
                                            PollState {
                                                futures: remaining,
                                                click_targets: st.click_targets,
                                                vector_modify: er.vector_modify@,
                                                messages: forwarded,
                                            },
                                            Err(ClientError::InvalidOutputType),
                                        )
                                    }
                                },
                            }
                        },
                    }
                },
            }
        },
        NodeGraphUpdate::CompilationResponse(cr) => {
            match cr.result {
                Err(e) => (
                    PollState {
                        futures: st.futures,
                        click_targets: Seq::empty(),
                        vector_modify: Seq::empty(),
                        messages: st.messages.push(
                            MessageView::UpdateTypes {
                                resolved_types: None,
                                node_graph_errors: cr.node_graph_errors@,
                            },
                        ).push(MessageView::SendGraph),
                    },
                    Err(ClientError::CompilationFailed(e)),
                ),
                Ok(t) => (
                    PollState {
                        futures: st.futures,
                        click_targets: st.click_targets,
                        vector_modify: st.vector_modify,
                        messages: st.messages.push(
                            MessageView::UpdateTypes {
                                resolved_types: Some(t),
                                node_graph_errors: cr.node_graph_errors@,
                            },
                        ).push(MessageView::SendGraph),
                    },
                    Ok(()),
                ),
            }
        },
        NodeGraphUpdate::Notification(_) => (
            PollState {
                futures: st.futures,
                click_targets: st.click_targets,
                vector_modify: st.vector_modify,
                messages: st.messages.push(MessageView::PropertiesPanelRefresh),
            },
            Ok(()),
        ),
    }
}

/// Fold [`poll_step`] over the responses from position `i` on, stopping at
/// the first error.
pub open spec fn poll_fold(
    st: PollState,
    inspect_active: bool,
    responses: Seq<NodeGraphUpdate>,
    i: int,
) -> (PollState, Result<(), ClientError>)
    decreases responses.len() - i,
{
    if 0 <= i < responses.len() {
        let stepped = poll_step(st, inspect_active, responses[i]);
        if stepped.1 is Err {
            stepped
        } else {
            poll_fold(stepped.0, inspect_active, responses, i + 1)
        }
    } else {
        (st, Ok(()))
    }
}

/// Pushing a message extends the view log by its view.
pub proof fn lemma_message_views_push(s: Seq<Message>, x: Message)
    ensures
        message_views(s.push(x)) == message_views(s).push(message_view(x)),
{
    assert(message_views(s.push(x)) =~= message_views(s).push(message_view(x)));
}

/// The caller-facing handle: owns the in-flight request contexts, the last
/// sent graph hash, and the active inspected node.
pub struct NodeGraphExecutor {
    /// In-flight execution contexts, keyed by request id.
    pub futures: Vec<(u64, ExecutionContext)>,
    /// Content hash of the last graph sent.
    pub node_graph_hash: u64,
    /// The currently inspected node, if any.
    pub old_inspect_node: Option<NodeId>,
    /// The next request id; ids are never reused within a process lifetime.
    pub next_execution_id: u64,
    /// Messages awaiting transport to the runtime loop.
    pub outbox: Vec<NodeRuntimeMessage>,
}

fn option_id_eq(a: Option<NodeId>, b: Option<NodeId>) -> (r: bool)
    ensures
        r == (a == b),
{
    match (a, b) {
        (None, None) => true,
        (Some(x), Some(y)) => x.0 == y.0,
        _ => false,
    }
}

impl NodeGraphExecutor {
    /// A handle with nothing in flight.
    pub fn new() -> (r: NodeGraphExecutor)
        ensures
            r.futures@ == Seq::<(u64, ExecutionContext)>::empty(),
            r.node_graph_hash == 0,
            r.old_inspect_node is None,
            r.next_execution_id == 1,
            r.outbox@ == Seq::<NodeRuntimeMessage>::empty(),
    {
        NodeGraphExecutor {
            futures: Vec::new(),
            node_graph_hash: 0,
            old_inspect_node: None,
            next_execution_id: 1,
            outbox: Vec::new(),
        }
    }

    /// Queue an execution request under a fresh id; never blocks on the
    /// response.
    fn queue_execution(&mut self, render_config: RenderConfig) -> (id: u64)
        requires
            old(self).next_execution_id < u64::MAX,
        ensures
            id == old(self).next_execution_id,
            final(self).next_execution_id == old(self).next_execution_id + 1,
            final(self).outbox@ == old(self).outbox@.push(
                NodeRuntimeMessage::ExecutionRequest(
                    ExecutionRequest { execution_id: id, render_config },
                ),
            ),
            final(self).futures == old(self).futures,
            final(self).node_graph_hash == old(self).node_graph_hash,
            final(self).old_inspect_node == old(self).old_inspect_node,
    {
        let execution_id = self.next_execution_id;
        self.next_execution_id = self.next_execution_id + 1;
        self.outbox.push(
            NodeRuntimeMessage::ExecutionRequest(ExecutionRequest { execution_id, render_config }),
        );
        execution_id
    }

    /// Send a new font cache to the runtime.
    pub fn update_font_cache(&mut self, font_cache: crate::messages::FontCache)
        ensures
            final(self).outbox@ == old(self).outbox@.push(
                NodeRuntimeMessage::FontCacheUpdate(font_cache),
            ),
            final(self).futures == old(self).futures,
            final(self).node_graph_hash == old(self).node_graph_hash,
            final(self).old_inspect_node == old(self).old_inspect_node,
            final(self).next_execution_id == old(self).next_execution_id,
    {
        self.outbox.push(NodeRuntimeMessage::FontCacheUpdate(font_cache));
    }

    /// Send new editor preferences to the runtime.
    pub fn update_editor_preferences(&mut self, preferences: crate::messages::EditorPreferences)
        ensures
            final(self).outbox@ == old(self).outbox@.push(
                NodeRuntimeMessage::EditorPreferencesUpdate(preferences),
            ),
            final(self).futures == old(self).futures,
            final(self).node_graph_hash == old(self).node_graph_hash,
            final(self).old_inspect_node == old(self).old_inspect_node,
            final(self).next_execution_id == old(self).next_execution_id,
    {
        self.outbox.push(NodeRuntimeMessage::EditorPreferencesUpdate(preferences));
    }

    /// Send the graph when its content hash, the inspected node, or a forced
    /// refresh asks for it; an unchanged graph is not recompiled.
    fn update_node_graph(&mut self, network: &Network, inspect_node: Option<NodeId>, ignore_hash: bool)
        ensures
            ({
                let h = spec_fingerprint(*network);
                let refresh = h != old(self).node_graph_hash || old(self).old_inspect_node
                    != inspect_node || ignore_hash;
                if refresh {
                    &&& final(self).outbox@ == old(self).outbox@.push(
                        NodeRuntimeMessage::GraphUpdate(
                            GraphUpdate { network: *network, inspect_node },
                        ),
                    )
                    &&& final(self).node_graph_hash == h
                    &&& final(self).old_inspect_node == inspect_node
                } else {
                    &&& final(self).outbox == old(self).outbox
                    &&& final(self).node_graph_hash == old(self).node_graph_hash
                    &&& final(self).old_inspect_node == old(self).old_inspect_node
                }
            }),
            final(self).futures == old(self).futures,
            final(self).next_execution_id == old(self).next_execution_id,
    {
        let network_hash = network_fingerprint(network);
        let same_inspect = option_id_eq(self.old_inspect_node, inspect_node);
        if network_hash != self.node_graph_hash || !same_inspect || ignore_hash {
            self.old_inspect_node = inspect_node;
            self.node_graph_hash = network_hash;
            let copy = network.duplicate();
            self.outbox.push(
                NodeRuntimeMessage::GraphUpdate(GraphUpdate { network: copy, inspect_node }),
            );
        }
    }

    /// Queue an evaluation of whatever graph the runtime currently holds.
    pub fn submit_current_node_graph_evaluation(&mut self, render_config: RenderConfig) -> (id:
        u64)
        requires
            old(self).next_execution_id < u64::MAX,
        ensures
            id == old(self).next_execution_id,
            final(self).next_execution_id == old(self).next_execution_id + 1,
            final(self).outbox@ == old(self).outbox@.push(
                NodeRuntimeMessage::ExecutionRequest(
                    ExecutionRequest { execution_id: id, render_config },
                ),
            ),
            final(self).futures@ == old(self).futures@.push(
                (id, ExecutionContext { export_config: None }),
            ),
            final(self).node_graph_hash == old(self).node_graph_hash,
            final(self).old_inspect_node == old(self).old_inspect_node,
    {
        let execution_id = self.queue_execution(render_config);
        self.futures.push((execution_id, ExecutionContext { export_config: None }));
        execution_id
    }

    /// Update the graph if needed, then queue an evaluation of it.
    pub fn submit_node_graph_evaluation(
        &mut self,
        network: &Network,
        render_config: RenderConfig,
        inspect_node: Option<NodeId>,
        ignore_hash: bool,
    ) -> (id: u64)
        requires
            old(self).next_execution_id < u64::MAX,
        ensures
            id == old(self).next_execution_id,
            final(self).next_execution_id == old(self).next_execution_id + 1,
            ({
                let h = spec_fingerprint(*network);
                let refresh = h != old(self).node_graph_hash || old(self).old_inspect_node
                    != inspect_node || ignore_hash;
                let exec_msg = NodeRuntimeMessage::ExecutionRequest(
                    ExecutionRequest { execution_id: id, render_config },
                );
                if refresh {
                    &&& final(self).outbox@ == old(self).outbox@.push(
                        NodeRuntimeMessage::GraphUpdate(
                            GraphUpdate { network: *network, inspect_node },
                        ),
                    ).push(exec_msg)
                    &&& final(self).node_graph_hash == h
                    &&& final(self).old_inspect_node == inspect_node
                } else {
                    &&& final(self).outbox@ == old(self).outbox@.push(exec_msg)
                    &&& final(self).node_graph_hash == old(self).node_graph_hash
                    &&& final(self).old_inspect_node == old(self).old_inspect_node
                }
            }),
            final(self).futures@ == old(self).futures@.push(
                (id, ExecutionContext { export_config: None }),
            ),
    {
        self.update_node_graph(network, inspect_node, ignore_hash);
        self.submit_current_node_graph_evaluation(render_config)
    }

    /// Send the graph unconditionally and queue an export execution whose
    /// output will be written to a file.
    pub fn submit_document_export(
        &mut self,
        network: &Network,
        export_config: ExportConfig,
        render_config: RenderConfig,
    ) -> (id: u64)
        requires
            old(self).next_execution_id < u64::MAX,
        ensures
            id == old(self).next_execution_id,
            final(self).next_execution_id == old(self).next_execution_id + 1,
            final(self).outbox@ == old(self).outbox@.push(
                NodeRuntimeMessage::GraphUpdate(
                    GraphUpdate { network: *network, inspect_node: None },
                ),
            ).push(
                NodeRuntimeMessage::ExecutionRequest(
                    ExecutionRequest { execution_id: id, render_config },
                ),
            ),
            final(self).futures@.len() == old(self).futures@.len() + 1,
            final(self).futures@.take(old(self).futures@.len() as int) == old(self).futures@,
            final(self).futures@.last().0 == id,
            final(self).futures@.last().1.export_config == Some(export_config),
            final(self).node_graph_hash == old(self).node_graph_hash,
            final(self).old_inspect_node == old(self).old_inspect_node,
    {
        let copy = network.duplicate();
        self.outbox.push(
            NodeRuntimeMessage::GraphUpdate(GraphUpdate { network: copy, inspect_node: None }),
        );
        let execution_id = self.queue_execution(render_config);
        let ghost before = self.futures@;
        self.futures.push((execution_id, ExecutionContext { export_config: Some(export_config) }));
        proof {
            assert(self.futures@.take(before.len() as int) =~= before);
        }
        execution_id
    }

    /// Write an export execution's output out: only a rendered document is
    /// accepted, downloaded as text for the vector format and as an image
    /// otherwise.
    fn export(
        &self,
        node_graph_output: Value,
        export_config: ExportConfig,
        responses: &mut Vec<Message>,
    ) -> (r: Result<(), ClientError>)
        ensures
            match node_graph_output {
                Value::Svg(svg) => {
                    &&& r is Ok
                    &&& final(responses)@.len() == old(responses)@.len() + 1
                    &&& old(responses)@.is_prefix_of(final(responses)@)
                    &&& (match final(responses)@.last() {
                        Message::Frontend(FrontendMessage::TriggerDownloadTextFile {
                            document,
                            name,
                        }) => export_config.file_type == FileType::Svg && document == svg && name@
                            == spec_export_name(export_config.file_name@, FileType::Svg),
                        Message::Frontend(FrontendMessage::TriggerDownloadImage {
                            svg: s,
                            name,
                            mime,
                            width,
                            height,
                        }) => {
                            &&& export_config.file_type != FileType::Svg
                            &&& s == svg
                            &&& mime == export_config.file_type
                            &&& name@ == spec_export_name(
                                export_config.file_name@,
                                export_config.file_type,
                            )
                            &&& width == scaled_size(
                                export_config.size_x,
                                export_config.scale_percent,
                            )
                            &&& height == scaled_size(
                                export_config.size_y,
                                export_config.scale_percent,
                            )
                        },
                        _ => false,
                    })
                },
                _ => r == Err::<(), ClientError>(ClientError::IncorrectRenderType)
                    && *final(responses) == *old(responses),
            },
    {
        let svg = match node_graph_output {
            Value::Svg(svg) => svg,
            _ => {
                return Err(ClientError::IncorrectRenderType);
            },
        };
        let name = export_name(&export_config.file_name, export_config.file_type);
        match export_config.file_type {
            FileType::Svg => {
                responses.push(
                    Message::Frontend(
                        FrontendMessage::TriggerDownloadTextFile { document: svg, name },
                    ),
                );
            },
            _ => {
                let width = scale_dimension(export_config.size_x, export_config.scale_percent);
                let height = scale_dimension(export_config.size_y, export_config.scale_percent);
                responses.push(
                    Message::Frontend(
                        FrontendMessage::TriggerDownloadImage {
                            svg,
                            name,
                            mime: export_config.file_type,
                            width,
                            height,
                        },
                    ),
                );
            },
        }
        Ok(())
    }

    /// Hand a preview execution's output to the rendering step: a rendered
    /// document updates the artwork, other renderable values get a debug
    /// rendering, anything else is rejected.
    pub fn process_node_graph_output(
        &mut self,
        node_graph_output: Value,
        transform: Transform,
        responses: &mut Vec<Message>,
    ) -> (r: Result<(), ClientError>)
        ensures
            *final(self) == *old(self),
            if node_graph_output is Svg || debug_renderable(node_graph_output) {
                ({
                    let svg = match node_graph_output {
                        Value::Svg(s) => s,
                        v => crate::semantics::value_token(v),
                    };
                    &&& r is Ok
                    &&& final(responses)@ == old(responses)@.push(
                        Message::Frontend(FrontendMessage::UpdateDocumentArtwork { svg }),
                    ).push(Message::EndBuffer { transform }).push(Message::RenderScrollbars).push(
                        Message::RenderRulers,
                    ).push(Message::OverlaysDraw)
                })
            } else {
                r == Err::<(), ClientError>(ClientError::InvalidOutputType) && *final(responses)
                    == *old(responses)
            },
    {
        let svg: u64 = match node_graph_output {
            Value::Svg(s) => s,
            Value::Boolean(b) => {
                if b {
                    1
                } else {
                    0
                }
            },
            Value::Uint(x) => x,
            Value::Graphic(g) => g,
            Value::Table(t) => t,
            _ => {
                return Err(ClientError::InvalidOutputType);
            },
        };
        responses.push(Message::Frontend(FrontendMessage::UpdateDocumentArtwork { svg }));
        responses.push(Message::EndBuffer { transform });
        responses.push(Message::RenderScrollbars);
        responses.push(Message::RenderRulers);
        responses.push(Message::OverlaysDraw);
        Ok(())
    }

    /// Read the last observed value at `path` from the installed runtime.
    pub fn introspect_node(
        &self,
        slot: &crate::runtime::RuntimeSlot,
        path: &Vec<NodeId>,
    ) -> (r: Result<Value, crate::executor::IntrospectError>)
        ensures
            r == match slot.runtime {
                None => Err::<Value, crate::executor::IntrospectError>(
                    crate::executor::IntrospectError::RuntimeNotReady,
                ),
                Some(rt) => match rt.executor.program {
                    None => Err::<Value, crate::executor::IntrospectError>(
                        crate::executor::IntrospectError::RuntimeNotReady,
                    ),
                    Some(_) => match crate::executor::obs_lookup(
                        rt.executor.observations@,
                        path@,
                    ) {
                        Some(v) => Ok::<Value, crate::executor::IntrospectError>(v),
                        None => Err::<Value, crate::executor::IntrospectError>(
                            crate::executor::IntrospectError::PathNotFound,
                        ),
                    },
                },
            },
    {
        crate::runtime::introspect_node(slot, path)
    }

    /// Read the last observed value at a node nested one level inside the
    /// document node at `node_path`: the wrapping node must hold a nested
    /// network binding `introspection_node`, whose cached value is then
    /// introspected from the runtime.
    pub fn introspect_node_in_network(
        &self,
        runtime: &crate::runtime::NodeRuntime,
        network: &Network,
        node_path: &Vec<NodeId>,
        introspection_node: NodeId,
    ) -> (r: Option<Value>)
        ensures
            r == ({
                if node_path@.len() == 0 {
                    None::<Value>
                } else {
                    match network.nodes.find(node_path@.last()) {
                        None => None::<Value>,
                        Some(wrapping) => match wrapping.implementation {
                            NodeImpl::Proto(_) => None::<Value>,
                            NodeImpl::Network(wrapped) => if !wrapped.nodes.contains_id(
                                introspection_node,
                            ) {
                                None::<Value>
                            } else {
                                match runtime.executor.program {
                                    None => None::<Value>,
                                    Some(_) => crate::executor::obs_lookup(
                                        runtime.executor.observations@,
                                        node_path@.push(introspection_node),
                                    ),
                                }
                            },
                        },
                    }
                }
            }),
    {
        if node_path.len() == 0 {
            return None;
        }
        let last = node_path[node_path.len() - 1];
        let wrapping = match network.nodes.lookup(last) {
            None => {
                return None;
            },
            Some(n) => n,
        };
        let wrapped = match &wrapping.implementation {
            NodeImpl::Proto(_) => {
                return None;
            },
            NodeImpl::Network(wrapped) => wrapped,
        };
        let found = wrapped.nodes.lookup(introspection_node);
        proof {
            wrapped.nodes.lemma_find_some_iff_contains(introspection_node);
        }
        if found.is_none() {
            return None;
        }
        let mut full_path = crate::compile::copy_path(node_path);
        full_path.push(introspection_node);
        match runtime.executor.introspect(&full_path) {
            Ok(v) => Some(v),
            Err(_) => None,
        }
    }

    /// Instrument a copy of the graph with monitors on every input and send
    /// it to the runtime; the cache is invalidated so the next plain update
    /// recompiles. The handed-back index holds every leaf protonode's
    /// monitor paths, by kind and by exact path. Instrumentation is owed:
    /// it fails only on a graph the harness rejects (duplicate node ids, or
    /// too little id space at some level).
    pub fn update_node_graph_instrumented(&mut self, network: &Network) -> (r: Result<
        crate::instrument::Instrumented,
        ClientError,
    >)
        ensures
            match r {
                Ok(idx) => {
                    &&& crate::instrument::instrumentable(*network)
                    &&& final(self).outbox@.len() == old(self).outbox@.len() + 1
                    &&& final(self).outbox@.take(old(self).outbox@.len() as int) == old(
                        self,
                    ).outbox@
                    &&& (match final(self).outbox@.last() {
                        NodeRuntimeMessage::GraphUpdate(g) => {
                            &&& crate::instrument::harness_rel(*network, g.network)
                            &&& crate::preserve::inst_rel(*network, g.network)
                            &&& g.inspect_node is None
                        },
                        _ => false,
                    })
                    &&& final(self).node_graph_hash == old(self).node_graph_hash ^ 1
                    &&& crate::instrument::index_consistent(idx)
                    &&& idx.recorded@ == crate::instrument::harvest(
                        Seq::empty(),
                        network.nodes,
                        crate::instrument::spec_max_id(network.nodes) + 1,
                    )
                },
                Err(e) => {
                    &&& e == ClientError::InstrumentationFailed
                    &&& !crate::instrument::instrumentable(*network)
                    &&& final(self).outbox == old(self).outbox
                    &&& final(self).node_graph_hash == old(self).node_graph_hash
                },
            },
            final(self).futures == old(self).futures,
            final(self).old_inspect_node == old(self).old_inspect_node,
            final(self).next_execution_id == old(self).next_execution_id,
    {
        let mut copy = network.duplicate();
        match crate::instrument::Instrumented::new(&mut copy) {
            None => Err(ClientError::InstrumentationFailed),
            Some(index) => {
                // Invalidate the cached hash so the next update recompiles.
                self.node_graph_hash = self.node_graph_hash ^ 1;
                let ghost before = self.outbox@;
                self.outbox.push(
                    NodeRuntimeMessage::GraphUpdate(
                        GraphUpdate { network: copy, inspect_node: None },
                    ),
                );
                proof {
                    assert(self.outbox@.take(before.len() as int) =~= before);
                }
                Ok(index)
            },
        }
    }

    /// Drain a batch of runtime responses: each is resolved back to its
    /// in-flight context by id and handed to the rendering or the export
    /// step; processing stops at the first error. Failed compiles and
    /// evaluations clear the document caches and queue their reporting
    /// messages, so stale interactive state cannot be acted upon.
    #[verifier::loop_isolation(false)]
    pub fn poll_node_graph_evaluation(
        &mut self,
        caches: &mut DocumentCaches,
        updates: Vec<NodeGraphUpdate>,
        responses: &mut Vec<Message>,
    ) -> (r: Result<(), ClientError>)
        ensures
            ({
                let st0 = PollState {
                    futures: old(self).futures@,
                    click_targets: old(caches).click_targets@,
                    vector_modify: old(caches).vector_modify@,
                    messages: message_views(old(responses)@),
                };
                let folded = poll_fold(st0, old(self).old_inspect_node is Some, updates@, 0);
                &&& r == folded.1
                &&& final(self).futures@ == folded.0.futures
                &&& final(caches).click_targets@ == folded.0.click_targets
                &&& final(caches).vector_modify@ == folded.0.vector_modify
                &&& message_views(final(responses)@) == folded.0.messages
            }),
            final(self).node_graph_hash == old(self).node_graph_hash,
            final(self).old_inspect_node == old(self).old_inspect_node,
            final(self).next_execution_id == old(self).next_execution_id,
            final(self).outbox == old(self).outbox,
    {
        let ghost orig = updates@;
        let ghost inspect_active = self.old_inspect_node is Some;
        let ghost st0 = PollState {
            futures: self.futures@,
            click_targets: caches.click_targets@,
            vector_modify: caches.vector_modify@,
            messages: message_views(responses@),
        };
        let mut updates = updates;
        let total = updates.len();
        let mut idx: usize = 0;
        proof {
            assert(orig.len() == total);
            assert(orig.skip(0) =~= orig);
        }
        while updates.len() > 0
            invariant
                0 <= idx <= orig.len(),
                orig.len() == total,
                updates@ == orig.skip(idx as int),
                poll_fold(st0, inspect_active, orig, 0) == poll_fold(
                    PollState {
                        futures: self.futures@,
                        click_targets: caches.click_targets@,
                        vector_modify: caches.vector_modify@,
                        messages: message_views(responses@),
                    },
                    inspect_active,
                    orig,
                    idx as int,
                ),
                self.node_graph_hash == old(self).node_graph_hash,
                self.old_inspect_node == old(self).old_inspect_node,
                self.next_execution_id == old(self).next_execution_id,
                self.outbox == old(self).outbox,
            decreases updates@.len(),
        {
            proof {
                assert(idx < orig.len()) by {
                    assert(orig.skip(idx as int).len() == orig.len() - idx);
                }
                assert(orig.skip(idx as int)[0] == orig[idx as int]);
            }
            let ghost st_now = PollState {
                futures: self.futures@,
                click_targets: caches.click_targets@,
                vector_modify: caches.vector_modify@,
                messages: message_views(responses@),
            };
            let upd = updates.remove(0);
            proof {
                assert(updates@ =~= orig.skip(idx as int + 1));
            }
            match upd {
                NodeGraphUpdate::ExecutionResponse(er) => {
                    let ghost rb0 = responses@;
                    responses.push(Message::OverlaysDraw);
                    proof {
                        lemma_message_views_push(rb0, Message::OverlaysDraw);
                    }
                    let crate::messages::ExecutionResponse {
                        execution_id,
                        result,
                        responses: existing_responses,
                        transform,
                        vector_modify,
                        inspect_result,
                    } = er;
                    match result {
                        Err(e) => {
                            // Clear derived caches while the graph is in an
                            // un-renderable state.
                            caches.click_targets = Vec::new();
                            caches.vector_modify = Vec::new();
                            proof {
                                let stepped = poll_step(st_now, inspect_active, orig[idx as int]);
                                assert(caches.click_targets@ =~= Seq::<(NodeId, u64)>::empty());
                                assert(caches.vector_modify@ =~= Seq::<(NodeId, u64)>::empty());
                                assert(stepped.0 =~= (PollState {
                                    futures: self.futures@,
                                    click_targets: caches.click_targets@,
                                    vector_modify: caches.vector_modify@,
                                    messages: message_views(responses@),
                                }));
                            }
                            return Err(ClientError::EvaluationFailed(e));
                        },
                        Ok(output) => {
                            let ghost orig_fr = existing_responses@;
                            let ghost base_views = message_views(responses@);
                            let mut existing_responses = existing_responses;
                            let fr_total = existing_responses.len();
                            let mut fj: usize = 0;
                            proof {
                                assert(orig_fr.len() == fr_total);
                                assert(orig_fr.skip(0) =~= orig_fr);
                                assert(frontend_message_views(orig_fr.take(0))
                                    =~= Seq::<MessageView>::empty());
                                assert(base_views + Seq::<MessageView>::empty() =~= base_views);
                            }
                            while existing_responses.len() > 0
                                invariant
                                    0 <= fj <= orig_fr.len(),
                                    orig_fr.len() == fr_total,
                                    existing_responses@ == orig_fr.skip(fj as int),
                                    message_views(responses@) == base_views
                                        + frontend_message_views(orig_fr.take(fj as int)),
                                decreases existing_responses@.len(),
                            {
                                proof {
                                    assert(fj < orig_fr.len()) by {
                                        assert(orig_fr.skip(fj as int).len() == orig_fr.len()
                                            - fj);
                                    }
                                    assert(orig_fr.skip(fj as int)[0] == orig_fr[fj as int]);
                                }
                                let m = existing_responses.remove(0);
                                let ghost rb = responses@;
                                responses.push(Message::Frontend(m));
                                proof {
                                    assert(existing_responses@ =~= orig_fr.skip(fj as int + 1));
                                    lemma_message_views_push(rb, Message::Frontend(m));
                                    assert(frontend_message_views(orig_fr.take(fj as int + 1))
                                        =~= frontend_message_views(orig_fr.take(fj as int)).push(
                                        MessageView::Frontend(
                                            crate::messages::frontend_view(m),
                                        ),
                                    ));
                                    assert(message_views(responses@) =~= base_views
                                        + frontend_message_views(orig_fr.take(fj as int + 1)));
                                }
                                fj += 1;
                            }
                            proof {
                                assert(orig_fr.take(orig_fr.len() as int) =~= orig_fr);
                            }
                            caches.vector_modify = vector_modify;
                            let handled: Result<(), ClientError> = match take_context(
                                &mut self.futures,
                                execution_id,
                            ) {
                                None => Err(ClientError::InvalidGenerationId),
                                Some(ctx) => {
                                    match ctx.export_config {
                                        Some(cfg) => {
                                            let ghost rb = responses@;
                                            let h = self.export(output, cfg, responses);
                                            proof {
                                                if h is Ok {
                                                    assert(responses@ =~= rb.push(
                                                        responses@.last(),
                                                    ));
                                                    lemma_message_views_push(
                                                        rb,
                                                        responses@.last(),
                                                    );
                                                }
                                            }
                                            h
                                        },
                                        None => {
                                            let ghost rb = responses@;
                                            let h = self.process_node_graph_output(
                                                output,
                                                transform,
                                                responses,
                                            );
                                            proof {
                                                if h is Ok {
                                                    assert(message_views(responses@)
                                                        =~= message_views(rb).push(
                                                        MessageView::Frontend(
                                                            FrontendMessageView::UpdateDocumentArtwork {
                                                                svg: (match output {
                                                                    Value::Svg(x) => x,
                                                                    v => crate::semantics::value_token(
                                                                        v,
                                                                    ),
                                                                }),
                                                            },
                                                        ),
                                                    ).push(
                                                        MessageView::EndBuffer { transform },
                                                    ).push(MessageView::RenderScrollbars).push(
                                                        MessageView::RenderRulers,
                                                    ).push(MessageView::OverlaysDraw));
                                                }
                                            }
                                            h
                                        },
                                    }
                                },
                            };
                            match handled {
                                Err(e) => {
                                    proof {
                                        let stepped = poll_step(
                                            st_now,
                                            inspect_active,
                                            orig[idx as int],
                                        );
                                        assert(stepped.1 == Err::<(), ClientError>(e));
                                        assert(stepped.0 =~= (PollState {
                                            futures: self.futures@,
                                            click_targets: caches.click_targets@,
                                            vector_modify: caches.vector_modify@,
                                            messages: message_views(responses@),
                                        }));
                                    }
                                    return Err(e);
                                },
                                Ok(()) => {},
                            }
                            // Update the spreadsheet with the inspected value.
                            if self.old_inspect_node.is_some() {
                                match inspect_result {
                                    Some(ir) => {
                                        let ghost rb = responses@;
                                        responses.push(
                                            Message::SpreadsheetUpdateLayout {
                                                inspect_result: ir,
                                            },
                                        );
                                        proof {
                                            lemma_message_views_push(
                                                rb,
                                                Message::SpreadsheetUpdateLayout {
                                                    inspect_result: ir,
                                                },
                                            );
                                        }
                                    },
                                    None => {},
                                }
                            }
                        },
                    }
                },
                NodeGraphUpdate::CompilationResponse(cr) => {
                    let crate::messages::CompilationResponse { result, node_graph_errors } = cr;
                    match result {
                        Err(e) => {
                            // Clear derived caches while the graph is in an
                            // un-renderable state.
                            caches.click_targets = Vec::new();
                            caches.vector_modify = Vec::new();
                            let ghost rb1 = responses@;
                            let ghost errs = node_graph_errors@;
                            responses.push(
                                Message::UpdateTypes { resolved_types: None, node_graph_errors },
                            );
                            proof {
                                lemma_message_views_push(rb1, responses@.last());
                            }
                            let ghost rb2 = responses@;
                            responses.push(Message::SendGraph);
                            proof {
                                lemma_message_views_push(rb2, Message::SendGraph);
                                let stepped = poll_step(st_now, inspect_active, orig[idx as int]);
                                assert(caches.click_targets@ =~= Seq::<(NodeId, u64)>::empty());
                                assert(caches.vector_modify@ =~= Seq::<(NodeId, u64)>::empty());
                                assert(stepped.0 =~= (PollState {
                                    futures: self.futures@,
                                    click_targets: caches.click_targets@,
                                    vector_modify: caches.vector_modify@,
                                    messages: message_views(responses@),
                                }));
                            }
                            return Err(ClientError::CompilationFailed(e));
                        },
                        Ok(t) => {
                            let ghost rb1 = responses@;
                            responses.push(
                                Message::UpdateTypes {
                                    resolved_types: Some(t),
                                    node_graph_errors,
                                },
                            );
                            proof {
                                lemma_message_views_push(rb1, responses@.last());
                            }
                            let ghost rb2 = responses@;
                            responses.push(Message::SendGraph);
                            proof {
                                lemma_message_views_push(rb2, Message::SendGraph);
                            }
                        },
                    }
                },
                NodeGraphUpdate::Notification(_) => {
                    let ghost rb = responses@;
                    responses.push(Message::PropertiesPanelRefresh);
                    proof {
                        lemma_message_views_push(rb, Message::PropertiesPanelRefresh);
                    }
                },
            }
            proof {
                let stepped = poll_step(st_now, inspect_active, orig[idx as int]);
                assert(stepped.1 is Ok);
                assert(stepped.0 =~= (PollState {
                    futures: self.futures@,
                    click_targets: caches.click_targets@,
                    vector_modify: caches.vector_modify@,
                    messages: message_views(responses@),
                }));
            }
            idx = idx + 1;
        }
        proof {
            assert(orig.skip(orig.len() as int) =~= Seq::<NodeGraphUpdate>::empty());
            assert(idx == orig.len()) by {
                assert(orig.skip(idx as int).len() == orig.len() - idx);
            }
        }
        Ok(())
    }
}

} // verus!
