//! The channel protocol between the client handle and the runtime loop, and
//! the outputs both hand to the surrounding editor.

use vstd::prelude::*;

use crate::compile::{CompileError, TypeInfo};
use crate::executor::ExecutionError;
use crate::graph::{Network, NodeId, RenderConfig, Transform, Value};

verus! {

/// The set of loaded fonts (opaque revision token).
#[derive(Clone, Copy, PartialEq, Eq, Structural, Debug)]
pub struct FontCache {
    pub revision: u64,
}

impl Default for FontCache {
    /// An empty font cache.
    fn default() -> (r: FontCache)
        ensures
            r.revision == 0,
    {
        FontCache { revision: 0 }
    }
}

/// Editor-wide preferences that executions depend on.
#[derive(Clone, Copy, PartialEq, Eq, Structural, Debug)]
pub struct EditorPreferences {
    pub use_vello: bool,
}

impl Default for EditorPreferences {
    /// The default preferences.
    fn default() -> (r: EditorPreferences)
        ensures
            r.use_vello == false,
    {
        EditorPreferences { use_vello: false }
    }
}

/// A new graph for the runtime, with an optional node to inspect.
pub struct GraphUpdate {
    pub network: Network,
    /// The node whose output should be observable during execution.
    pub inspect_node: Option<NodeId>,
}

/// One asynchronous execution request, correlated by `execution_id`.
#[derive(Clone, Copy, PartialEq, Eq, Structural, Debug)]
pub struct ExecutionRequest {
    pub execution_id: u64,
    pub render_config: RenderConfig,
}

/// Messages passed from the editor thread to the node runtime.
pub enum NodeRuntimeMessage {
    GraphUpdate(GraphUpdate),
    ExecutionRequest(ExecutionRequest),
    FontCacheUpdate(FontCache),
    EditorPreferencesUpdate(EditorPreferences),
}

/// The resulting value from the node inspected during an execution.
#[derive(Clone, Copy, Debug)]
pub struct InspectResult {
    pub introspected_data: Option<Value>,
    pub inspect_node: NodeId,
}

impl PartialEq for InspectResult {
    /// Results are correlated by the inspected node alone.
    fn eq(&self, other: &InspectResult) -> (r: bool) {
        self.inspect_node.0 == other.inspect_node.0
    }
}

impl vstd::std_specs::cmp::PartialEqSpecImpl for InspectResult {
    open spec fn obeys_eq_spec() -> bool {
        true
    }

    open spec fn eq_spec(&self, other: &InspectResult) -> bool {
        self.inspect_node == other.inspect_node
    }
}

/// A notification for the editor that does not answer any request.
#[derive(Clone, Copy, PartialEq, Eq, Structural, Debug)]
pub enum RuntimeNotification {
    /// Long-running background work progressed; refresh dependent panels.
    StatusUpdate,
}

/// A message for the frontend.
#[derive(Clone, PartialEq, Eq, Debug)]
pub enum FrontendMessage {
    UpdateNodeThumbnail { id: NodeId, value: u64 },
    UpdateDocumentArtwork { svg: u64 },
    TriggerDownloadTextFile { document: u64, name: Vec<u8> },
    TriggerDownloadImage { svg: u64, name: Vec<u8>, mime: FileType, width: u64, height: u64 },
}

/// A message the client hands back to the surrounding editor.
#[derive(Clone, PartialEq, Debug)]
pub enum Message {
    Frontend(FrontendMessage),
    OverlaysDraw,
    EndBuffer { transform: Transform },
    RenderScrollbars,
    RenderRulers,
    UpdateTypes { resolved_types: Option<TypeInfo>, node_graph_errors: Vec<CompileError> },
    SendGraph,
    SpreadsheetUpdateLayout { inspect_result: InspectResult },
    PropertiesPanelRefresh,
}

/// The mathematical face of a frontend message, with sequences for the
/// byte buffers.
pub enum FrontendMessageView {
    UpdateNodeThumbnail { id: NodeId, value: u64 },
    UpdateDocumentArtwork { svg: u64 },
    TriggerDownloadTextFile { document: u64, name: Seq<u8> },
    TriggerDownloadImage { svg: u64, name: Seq<u8>, mime: FileType, width: u64, height: u64 },
}

pub open spec fn frontend_view(m: FrontendMessage) -> FrontendMessageView {
    match m {
        FrontendMessage::UpdateNodeThumbnail { id, value } => {
            FrontendMessageView::UpdateNodeThumbnail { id, value }
        },
        FrontendMessage::UpdateDocumentArtwork { svg } => {
            FrontendMessageView::UpdateDocumentArtwork { svg }
        },
        FrontendMessage::TriggerDownloadTextFile { document, name } => {
            FrontendMessageView::TriggerDownloadTextFile { document, name: name@ }
        },
        FrontendMessage::TriggerDownloadImage { svg, name, mime, width, height } => {
            FrontendMessageView::TriggerDownloadImage { svg, name: name@, mime, width, height }
        },
    }
}

/// The mathematical face of an editor message.
pub enum MessageView {
    Frontend(FrontendMessageView),
    OverlaysDraw,
    EndBuffer { transform: Transform },
    RenderScrollbars,
    RenderRulers,
    UpdateTypes { resolved_types: Option<TypeInfo>, node_graph_errors: Seq<CompileError> },
    SendGraph,
    SpreadsheetUpdateLayout { inspect_result: InspectResult },
    PropertiesPanelRefresh,
}

pub open spec fn message_view(m: Message) -> MessageView {
    match m {
        Message::Frontend(f) => MessageView::Frontend(frontend_view(f)),
        Message::OverlaysDraw => MessageView::OverlaysDraw,
        Message::EndBuffer { transform } => MessageView::EndBuffer { transform },
        Message::RenderScrollbars => MessageView::RenderScrollbars,
        Message::RenderRulers => MessageView::RenderRulers,
        Message::UpdateTypes { resolved_types, node_graph_errors } => {
            MessageView::UpdateTypes { resolved_types, node_graph_errors: node_graph_errors@ }
        },
        Message::SendGraph => MessageView::SendGraph,
        Message::SpreadsheetUpdateLayout { inspect_result } => {
            MessageView::SpreadsheetUpdateLayout { inspect_result }
        },
        Message::PropertiesPanelRefresh => MessageView::PropertiesPanelRefresh,
    }
}

/// The views of a list of forwarded frontend messages.
pub open spec fn frontend_message_views(s: Seq<FrontendMessage>) -> Seq<MessageView> {
    s.map_values(|m: FrontendMessage| MessageView::Frontend(frontend_view(m)))
}

/// The views of the messages queued so far.
pub open spec fn message_views(s: Seq<Message>) -> Seq<MessageView> {
    s.map_values(|m: Message| message_view(m))
}

/// The runtime's answer to one execution request.
pub struct ExecutionResponse {
    pub execution_id: u64,
    pub result: Result<Value, ExecutionError>,
    pub responses: Vec<FrontendMessage>,
    pub transform: Transform,
    pub vector_modify: Vec<(NodeId, u64)>,
    /// The resulting value from the node inspected during the execution.
    pub inspect_result: Option<InspectResult>,
}

/// The runtime's answer to one graph update.
pub struct CompilationResponse {
    pub result: Result<TypeInfo, CompileError>,
    pub node_graph_errors: Vec<CompileError>,
}

/// Messages passed from the node runtime back to the editor thread.
pub enum NodeGraphUpdate {
    ExecutionResponse(ExecutionResponse),
    CompilationResponse(CompilationResponse),
    Notification(RuntimeNotification),
}

/// The file format of an exported document.
#[derive(Clone, Copy, PartialEq, Eq, Structural, Debug)]
pub enum FileType {
    Svg,
    Png,
    Jpg,
}

impl Default for FileType {
    /// Exports default to the vector format.
    fn default() -> (r: FileType)
        ensures
            r == FileType::Svg,
    {
        FileType::Svg
    }
}

/// Which region of the document an export covers.
#[derive(Clone, Copy, PartialEq, Eq, Structural, Debug)]
pub enum ExportBounds {
    AllArtwork,
    Selection,
    Artboard(NodeId),
}

/// How an export execution's output is written out.
pub struct ExportConfig {
    pub file_name: Vec<u8>,
    pub file_type: FileType,
    /// Scale factor in hundredths.
    pub scale_percent: u64,
    pub bounds: ExportBounds,
    pub transparent_background: bool,
    pub size_x: u64,
    pub size_y: u64,
}

} // verus!
