//! The runtime loop: the single worker that owns the executor core,
//! serializing all compiles and executions against it. Queued messages are
//! coalesced so that only the latest message of each category acts.

use vstd::prelude::*;

use crate::compile::{compile, fuel_policy, monitor_paths, paths_match, valid_network, CompileError, CompiledProgram, TypeInfo};
use crate::executor::{obs_lookup, program_observation, program_output, ExecutionError, ExecutorCore};
use crate::graph::{Network, NodeId, RenderConfig, Value, ValueKind};
use crate::inspect::{inject_monitor, InspectState};
use crate::messages::{CompilationResponse, EditorPreferences, ExecutionRequest, ExecutionResponse, FontCache, FrontendMessage, GraphUpdate, NodeGraphUpdate, NodeRuntimeMessage};
use crate::store::{assoc, assoc_set, store_get, store_set};

verus! {

/// The rendered visual representation of a scene value.
pub open spec fn render_thumbnail(g: u64) -> u64 {
    g
}

/// The latest-wins slots per message category: all the coalescing policy
/// keeps from a drained queue.
pub struct CoalescedMessages {
    pub font: Option<FontCache>,
    pub preferences: Option<EditorPreferences>,
    pub graph: Option<GraphUpdate>,
    pub execution: Option<ExecutionRequest>,
}

/// The last font update in the queue, if any.
pub open spec fn last_font(s: Seq<NodeRuntimeMessage>) -> Option<FontCache>
    decreases s.len(),
{
    if s.len() == 0 {
        None
    } else {
        match s.last() {
            NodeRuntimeMessage::FontCacheUpdate(f) => Some(f),
            _ => last_font(s.drop_last()),
        }
    }
}

/// The last preferences update in the queue, if any.
pub open spec fn last_preferences(s: Seq<NodeRuntimeMessage>) -> Option<EditorPreferences>
    decreases s.len(),
{
    if s.len() == 0 {
        None
    } else {
        match s.last() {
            NodeRuntimeMessage::EditorPreferencesUpdate(p) => Some(p),
            _ => last_preferences(s.drop_last()),
        }
    }
}

/// The last graph update in the queue, if any.
pub open spec fn last_graph(s: Seq<NodeRuntimeMessage>) -> Option<GraphUpdate>
    decreases s.len(),
{
    if s.len() == 0 {
        None
    } else {
        match s.last() {
            NodeRuntimeMessage::GraphUpdate(g) => Some(g),
            _ => last_graph(s.drop_last()),
        }
    }
}

/// The last execution request in the queue, if any.
pub open spec fn last_execution(s: Seq<NodeRuntimeMessage>) -> Option<ExecutionRequest>
    decreases s.len(),
{
    if s.len() == 0 {
        None
    } else {
        match s.last() {
            NodeRuntimeMessage::ExecutionRequest(e) => Some(e),
            _ => last_execution(s.drop_last()),
        }
    }
}

/// Collapse a drained queue into one latest-wins slot per category. All
/// earlier messages of each category are dropped, never acted on.
pub fn coalesce(messages: Vec<NodeRuntimeMessage>) -> (r: CoalescedMessages)
    ensures
        r.font == last_font(messages@),
        r.preferences == last_preferences(messages@),
        r.graph == last_graph(messages@),
        r.execution == last_execution(messages@),
{
    let ghost orig = messages@;
    let mut messages = messages;
    let mut font: Option<FontCache> = None;
    let mut preferences: Option<EditorPreferences> = None;
    let mut graph: Option<GraphUpdate> = None;
    let mut execution: Option<ExecutionRequest> = None;
    while messages.len() > 0
        invariant
            match font {
                Some(f) => last_font(orig) == Some(f),
                None => last_font(orig) == last_font(messages@),
            },
            match preferences {
                Some(p) => last_preferences(orig) == Some(p),
                None => last_preferences(orig) == last_preferences(messages@),
            },
            graph is Some ==> last_graph(orig) == graph,
            graph is None ==> last_graph(orig) == last_graph(messages@),
            match execution {
                Some(e) => last_execution(orig) == Some(e),
                None => last_execution(orig) == last_execution(messages@),
            },
        decreases messages@.len(),
    {
        match messages.pop() {
            None => {
                assert(false);
            },
            Some(msg) => {
                match msg {
                    NodeRuntimeMessage::FontCacheUpdate(f) => {
                        if font.is_none() {
                            font = Some(f);
                        }
                    },
                    NodeRuntimeMessage::EditorPreferencesUpdate(p) => {
                        if preferences.is_none() {
                            preferences = Some(p);
                        }
                    },
                    NodeRuntimeMessage::GraphUpdate(g) => {
                        if graph.is_none() {
                            graph = Some(g);
                        }
                    },
                    NodeRuntimeMessage::ExecutionRequest(e) => {
                        if execution.is_none() {
                            execution = Some(e);
                        }
                    },
                }
            },
        }
    }
    CoalescedMessages { font, preferences, graph, execution }
}

/// The graphs with one export, fully resolving structure, and representable
/// weight: exactly those that compile.
pub open spec fn spec_compiles(net: Network) -> bool {
    net.exports.seq().len() == 1 && valid_network(net, 1) && fuel_policy(net) <= u64::MAX
}

/// The error a failing compile reports.
pub open spec fn compile_fails_with(net: Network, e: CompileError) -> bool {
    match e {
        CompileError::NoOutput => net.exports.seq().len() == 0,
        CompileError::MultipleOutputs => net.exports.seq().len() > 1,
        CompileError::InvalidStructure => net.exports.seq().len() == 1 && !valid_network(net, 1),
        CompileError::GraphTooLarge => net.exports.seq().len() == 1 && valid_network(net, 1)
            && fuel_policy(net) > u64::MAX,
    }
}

/// The executor holds the program compiled from `graph`.
pub open spec fn installed_program_for(ex: ExecutorCore, graph: Network) -> bool {
    match ex.program {
        None => false,
        Some(prog) => {
            &&& prog.network == graph
            &&& prog.fuel == fuel_policy(graph)
            &&& prog.input_kind == graph.input_kind
            &&& paths_match(prog.monitors@, monitor_paths(Seq::empty(), graph.nodes))
        },
    }
}

/// The graph input value an execution configuration provides, by the
/// program's declared input type.
pub open spec fn execution_input(kind: ValueKind, cfg: RenderConfig) -> Option<Value> {
    match kind {
        ValueKind::Render => Some(Value::Render(cfg)),
        ValueKind::Nothing => Some(Value::Nothing),
        _ => None,
    }
}

/// What running the installed program against `cfg` returns.
pub open spec fn execution_outcome(prog_opt: Option<CompiledProgram>, cfg: RenderConfig) -> Result<
    Value,
    ExecutionError,
> {
    match prog_opt {
        None => Err(ExecutionError::NoCompiledProgram),
        Some(prog) => match execution_input(prog.input_kind, cfg) {
            None => Err(
                ExecutionError::InvalidInputType {
                    expected: prog.input_kind,
                    actual: ValueKind::Render,
                },
            ),
            Some(input) => match program_output(prog, input) {
                Some(v) => Ok(v),
                None => Err(ExecutionError::NotEvaluated),
            },
        },
    }
}

/// Persistent state between graph executions, updated by messages from the
/// editor thread. Owns the only handle to the executor core.
pub struct NodeRuntime {
    pub executor: ExecutorCore,
    pub font_cache: FontCache,
    pub editor_preferences: EditorPreferences,
    /// The last known (pre-injection) graph, recompiled on context changes.
    pub old_graph: Option<Network>,
    pub update_thumbnails: bool,
    pub node_graph_errors: Vec<CompileError>,
    /// Which node is inspected and which monitor observes it, if any.
    pub inspect_state: Option<InspectState>,
    /// The current thumbnail of each observed layer node.
    pub thumbnail_renders: Vec<(NodeId, u64)>,
    /// The current data snapshot of each observed vector node.
    pub vector_modify: Vec<(NodeId, u64)>,
}

/// The monitor paths of the installed program.
pub open spec fn program_monitors(ex: ExecutorCore) -> Seq<Vec<NodeId>> {
    match ex.program {
        None => Seq::empty(),
        Some(prog) => prog.monitors@,
    }
}

/// A thumbnail entry survives pruning when its node still owns a monitor.
pub open spec fn keep_entry(monitors: Seq<Vec<NodeId>>, e: (NodeId, u64)) -> bool {
    exists|j: int| 0 <= j < monitors.len() && (#[trigger] monitors[j])@.contains(e.0)
}

/// The thumbnail store with entries of vanished nodes pruned.
pub open spec fn pruned(monitors: Seq<Vec<NodeId>>, thumbs: Seq<(NodeId, u64)>) -> Seq<
    (NodeId, u64),
>
    decreases thumbs.len(),
{
    if thumbs.len() == 0 {
        Seq::empty()
    } else {
        let rest = pruned(monitors, thumbs.drop_first());
        if keep_entry(monitors, thumbs[0]) {
            seq![thumbs[0]] + rest
        } else {
            rest
        }
    }
}

pub proof fn lemma_pruned_skip(monitors: Seq<Vec<NodeId>>, thumbs: Seq<(NodeId, u64)>, i: int)
    requires
        0 <= i < thumbs.len(),
    ensures
        pruned(monitors, thumbs.skip(i)) == if keep_entry(monitors, thumbs[i]) {
            seq![thumbs[i]] + pruned(monitors, thumbs.skip(i + 1))
        } else {
            pruned(monitors, thumbs.skip(i + 1))
        },
{
    assert(thumbs.skip(i).len() > 0);
    assert(thumbs.skip(i)[0] == thumbs[i]);
    assert(thumbs.skip(i).drop_first() =~= thumbs.skip(i + 1));
}

/// The observation-sweep state: thumbnails, data snapshots, and the change
/// notifications emitted so far.
pub struct SweepState {
    pub thumbnails: Seq<(NodeId, u64)>,
    pub vector_modify: Seq<(NodeId, u64)>,
    pub messages: Seq<FrontendMessage>,
}

/// How one monitor's observation updates the sweep state: the inspect
/// monitor and too-short paths are skipped; a renderable value refreshes the
/// owning node's thumbnail, notifying only on change; a tabular value
/// replaces the owning node's snapshot unconditionally; anything else (and a
/// failed introspection) is ignored.
pub open spec fn sweep_step(
    st: SweepState,
    skip_monitor: Option<NodeId>,
    obs: Seq<(Vec<NodeId>, Value)>,
    update_thumbnails: bool,
    path: Seq<NodeId>,
) -> SweepState {
    if (match skip_monitor {
        Some(m) => path.len() > 0 && path.last() == m,
        None => false,
    }) {
        st
    } else if path.len() < 2 {
        st
    } else {
        let parent = path[path.len() - 2];
        match obs_lookup(obs, path) {
            None => st,
            Some(v) => match v {
                Value::Graphic(g) => if update_thumbnails {
                    let svg = render_thumbnail(g);
                    SweepState {
                        thumbnails: assoc_set(st.thumbnails, parent, svg),
                        vector_modify: st.vector_modify,
                        messages: if assoc(st.thumbnails, parent) == Some(svg) {
                            st.messages
                        } else {
                            st.messages.push(
                                FrontendMessage::UpdateNodeThumbnail { id: parent, value: svg },
                            )
                        },
                    }
                } else {
                    st
                },
                Value::Table(t) => SweepState {
                    thumbnails: st.thumbnails,
                    vector_modify: assoc_set(st.vector_modify, parent, t),
                    messages: st.messages,
                },
                _ => st,
            },
        }
    }
}

/// Fold [`sweep_step`] over the monitors from position `i` on.
pub open spec fn sweep(
    st: SweepState,
    skip_monitor: Option<NodeId>,
    obs: Seq<(Vec<NodeId>, Value)>,
    update_thumbnails: bool,
    monitors: Seq<Vec<NodeId>>,
    i: int,
) -> SweepState
    decreases monitors.len() - i,
{
    if 0 <= i < monitors.len() {
        sweep(
            sweep_step(st, skip_monitor, obs, update_thumbnails, monitors[i]@),
            skip_monitor,
            obs,
            update_thumbnails,
            monitors,
            i + 1,
        )
    } else {
        st
    }
}

/// Whether `id` occurs in any monitor path.
fn monitors_contain_id(monitors: &Vec<Vec<NodeId>>, id: NodeId) -> (r: bool)
    ensures
        r == exists|j: int|
            0 <= j < monitors@.len() && (#[trigger] monitors@[j])@.contains(id),
{
    let mut j: usize = 0;
    while j < monitors.len()
        invariant
            0 <= j <= monitors@.len(),
            forall|k: int| 0 <= k < j ==> !(#[trigger] monitors@[k])@.contains(id),
        decreases monitors@.len() - j,
    {
        let path = &monitors[j];
        let mut k: usize = 0;
        while k < path.len()
            invariant
                0 <= k <= path@.len(),
                path == &monitors@[j as int],
                0 <= j < monitors@.len(),
                forall|m: int| 0 <= m < k ==> path@[m] != id,
            decreases path@.len() - k,
        {
            if path[k].0 == id.0 {
                assert(monitors@[j as int]@.contains(id)) by {
                    assert(monitors@[j as int]@[k as int] == id);
                }
                return true;
            }
            k += 1;
        }
        assert(!monitors@[j as int]@.contains(id));
        j += 1;
    }
    false
}

/// Copy an id-to-token store.
pub fn copy_store(s: &Vec<(NodeId, u64)>) -> (r: Vec<(NodeId, u64)>)
    ensures
        r@ == s@,
{
    let mut out: Vec<(NodeId, u64)> = Vec::new();
    let mut i: usize = 0;
    while i < s.len()
        invariant
            0 <= i <= s@.len(),
            out@ == s@.take(i as int),
        decreases s@.len() - i,
    {
        out.push((s[i].0, s[i].1));
        proof {
            assert(out@ =~= s@.take(i + 1));
        }
        i += 1;
    }
    proof {
        assert(out@ =~= s@);
    }
    out
}

/// Copy a list of structural errors.
pub fn copy_errors(s: &Vec<CompileError>) -> (r: Vec<CompileError>)
    ensures
        r@ == s@,
{
    let mut out: Vec<CompileError> = Vec::new();
    let mut i: usize = 0;
    while i < s.len()
        invariant
            0 <= i <= s@.len(),
            out@ == s@.take(i as int),
        decreases s@.len() - i,
    {
        out.push(s[i]);
        proof {
            assert(out@ =~= s@.take(i + 1));
        }
        i += 1;
    }
    proof {
        assert(out@ =~= s@);
    }
    out
}

impl NodeRuntime {
    /// A runtime with nothing compiled and nothing cached.
    pub fn new() -> (r: NodeRuntime)
        ensures
            r.executor.program is None,
            r.executor.observations@ == Seq::<(Vec<NodeId>, Value)>::empty(),
            r.font_cache.revision == 0,
            r.editor_preferences.use_vello == false,
            r.old_graph is None,
            r.update_thumbnails == true,
            r.node_graph_errors@ == Seq::<CompileError>::empty(),
            r.inspect_state is None,
            r.thumbnail_renders@ == Seq::<(NodeId, u64)>::empty(),
            r.vector_modify@ == Seq::<(NodeId, u64)>::empty(),
    {
        NodeRuntime {
            executor: ExecutorCore::new(),
            font_cache: FontCache { revision: 0 },
            editor_preferences: EditorPreferences { use_vello: false },
            old_graph: None,
            update_thumbnails: true,
            node_graph_errors: Vec::new(),
            inspect_state: None,
            thumbnail_renders: Vec::new(),
            vector_modify: Vec::new(),
        }
    }

    /// Compile `graph` and install the result in the executor core. A failed
    /// compile leaves the executor untouched and records the error; the
    /// runtime stays usable.
    pub fn update_network(&mut self, graph: Network) -> (r: Result<TypeInfo, CompileError>)
        ensures
            final(self).font_cache == old(self).font_cache,
            final(self).editor_preferences == old(self).editor_preferences,
            final(self).old_graph == old(self).old_graph,
            final(self).update_thumbnails == old(self).update_thumbnails,
            final(self).inspect_state == old(self).inspect_state,
            final(self).thumbnail_renders == old(self).thumbnail_renders,
            final(self).vector_modify == old(self).vector_modify,
            match r {
                Ok(t) => {
                    &&& spec_compiles(graph)
                    &&& t.input_kind == graph.input_kind
                    &&& installed_program_for(final(self).executor, graph)
                    &&& final(self).executor.observations@ == Seq::<(Vec<NodeId>, Value)>::empty()
                    &&& final(self).node_graph_errors == old(self).node_graph_errors
                },
                Err(e) => {
                    &&& compile_fails_with(graph, e)
                    &&& !spec_compiles(graph)
                    &&& final(self).executor == old(self).executor
                    &&& final(self).node_graph_errors@ == old(self).node_graph_errors@.push(e)
                },
            },
    {
        match compile(graph) {
            Ok(prog) => {
                let t = self.executor.update(prog);
                Ok(t)
            },
            Err(e) => {
                self.node_graph_errors.push(e);
                Err(e)
            },
        }
    }

    /// Run the installed program once. The execution configuration is handed
    /// to the graph as its input value when the program takes one.
    pub fn execute_network(&mut self, render_config: RenderConfig) -> (r: Result<
        Value,
        ExecutionError,
    >)
        ensures
            final(self).executor.program == old(self).executor.program,
            final(self).font_cache == old(self).font_cache,
            final(self).editor_preferences == old(self).editor_preferences,
            final(self).old_graph == old(self).old_graph,
            final(self).update_thumbnails == old(self).update_thumbnails,
            final(self).inspect_state == old(self).inspect_state,
            final(self).node_graph_errors == old(self).node_graph_errors,
            final(self).thumbnail_renders == old(self).thumbnail_renders,
            final(self).vector_modify == old(self).vector_modify,
            r == execution_outcome(old(self).executor.program, render_config),
            match old(self).executor.program {
                None => final(self).executor.observations == old(self).executor.observations,
                Some(prog) => match execution_input(prog.input_kind, render_config) {
                    None => final(self).executor.observations == old(self).executor.observations,
                    Some(input) => forall|path: Seq<NodeId>|
                        obs_lookup(final(self).executor.observations@, path)
                            == program_observation(prog, input, path),
                },
            },
    {
        let input_kind = match self.executor.input_type() {
            None => {
                return Err(ExecutionError::NoCompiledProgram);
            },
            Some(k) => k,
        };
        let input = match input_kind {
            ValueKind::Render => Value::Render(render_config),
            ValueKind::Nothing => Value::Nothing,
            _ => {
                return Err(
                    ExecutionError::InvalidInputType {
                        expected: input_kind,
                        actual: ValueKind::Render,
                    },
                );
            },
        };
        self.executor.execute(input)
    }

    /// A renderable value was observed at a monitor owned by
    /// `parent_network_node_id`: regenerate its thumbnail, and emit a change
    /// notification only if the rendering actually differs from the cached
    /// one. Nothing happens while thumbnail refreshing is off.
    pub fn process_graphic_element(
        thumbnail_renders: &mut Vec<(NodeId, u64)>,
        parent_network_node_id: NodeId,
        graphic: u64,
        responses: &mut Vec<FrontendMessage>,
        update_thumbnails: bool,
    )
        ensures
            if update_thumbnails {
                ({
                    let svg = render_thumbnail(graphic);
                    &&& final(thumbnail_renders)@ == assoc_set(
                        old(thumbnail_renders)@,
                        parent_network_node_id,
                        svg,
                    )
                    &&& final(responses)@ == if assoc(
                        old(thumbnail_renders)@,
                        parent_network_node_id,
                    ) == Some(svg) {
                        old(responses)@
                    } else {
                        old(responses)@.push(
                            FrontendMessage::UpdateNodeThumbnail {
                                id: parent_network_node_id,
                                value: svg,
                            },
                        )
                    }
                })
            } else {
                final(thumbnail_renders)@ == old(thumbnail_renders)@ && final(responses)@ == old(
                    responses,
                )@
            },
    {
        if !update_thumbnails {
            return ;
        }
        // Render the observed value into its visual representation.
        let svg = graphic;
        let previous = store_get(thumbnail_renders, parent_network_node_id);
        let changed = match previous {
            Some(p) => p != svg,
            None => true,
        };
        store_set(thumbnail_renders, parent_network_node_id, svg);
        if changed {
            responses.push(
                FrontendMessage::UpdateNodeThumbnail { id: parent_network_node_id, value: svg },
            );
        }
    }

    /// The observation sweep run after an execution: prune thumbnails of
    /// vanished nodes, then fold every monitor's observation into the cached
    /// state, pushing a change notification per thumbnail that differs.
    pub fn process_monitor_nodes(
        &mut self,
        responses: &mut Vec<FrontendMessage>,
        update_thumbnails: bool,
    )
        ensures
            final(self).executor == old(self).executor,
            final(self).font_cache == old(self).font_cache,
            final(self).editor_preferences == old(self).editor_preferences,
            final(self).old_graph == old(self).old_graph,
            final(self).update_thumbnails == old(self).update_thumbnails,
            final(self).inspect_state == old(self).inspect_state,
            final(self).node_graph_errors == old(self).node_graph_errors,
            ({
                let monitors = program_monitors(old(self).executor);
                let skip_monitor = match old(self).inspect_state {
                    Some(st) => Some(st.monitor_node),
                    None => None::<NodeId>,
                };
                let st0 = SweepState {
                    thumbnails: pruned(monitors, old(self).thumbnail_renders@),
                    vector_modify: old(self).vector_modify@,
                    messages: old(responses)@,
                };
                let fin = sweep(
                    st0,
                    skip_monitor,
                    old(self).executor.observations@,
                    update_thumbnails,
                    monitors,
                    0,
                );
                &&& final(self).thumbnail_renders@ == fin.thumbnails
                &&& final(self).vector_modify@ == fin.vector_modify
                &&& final(responses)@ == fin.messages
            }),
    {
        let empty_monitors: Vec<Vec<NodeId>> = Vec::new();
        let monitors: &Vec<Vec<NodeId>> = match &self.executor.program {
            Some(prog) => &prog.monitors,
            None => &empty_monitors,
        };
        let ghost monitors_spec = monitors@;
        proof {
            assert(monitors_spec == program_monitors(self.executor));
        }

        // Prune thumbnails whose owning node no longer owns any monitor.
        let ghost thumbs0 = self.thumbnail_renders@;
        let mut kept: Vec<(NodeId, u64)> = Vec::new();
        let mut i: usize = 0;
        proof {
            assert(thumbs0.skip(0) =~= thumbs0);
        }
        while i < self.thumbnail_renders.len()
            invariant
                0 <= i <= self.thumbnail_renders@.len(),
                *self == *old(self),
                self.thumbnail_renders@ == thumbs0,
                monitors@ == monitors_spec,
                monitors_spec == program_monitors(self.executor),
                pruned(monitors_spec, thumbs0) == kept@ + pruned(
                    monitors_spec,
                    thumbs0.skip(i as int),
                ),
            decreases self.thumbnail_renders@.len() - i,
        {
            proof {
                lemma_pruned_skip(monitors_spec, thumbs0, i as int);
            }
            let entry = (self.thumbnail_renders[i].0, self.thumbnail_renders[i].1);
            if monitors_contain_id(monitors, entry.0) {
                let ghost kept0 = kept@;
                kept.push(entry);
                proof {
                    assert(kept@ + pruned(monitors_spec, thumbs0.skip(i + 1)) =~= kept0 + (seq![
                        thumbs0[i as int],
                    ] + pruned(monitors_spec, thumbs0.skip(i + 1))));
                }
            }
            i += 1;
        }
        proof {
            assert(thumbs0.skip(thumbs0.len() as int) =~= Seq::<(NodeId, u64)>::empty());
            assert(kept@ + pruned(monitors_spec, thumbs0.skip(thumbs0.len() as int)) =~= kept@);
        }
        self.thumbnail_renders = kept;

        // Fold every monitor's observation into the cached state.
        let ghost skip_monitor = match self.inspect_state {
            Some(st) => Some(st.monitor_node),
            None => None::<NodeId>,
        };
        let ghost obs = self.executor.observations@;
        let ghost st0 = SweepState {
            thumbnails: self.thumbnail_renders@,
            vector_modify: self.vector_modify@,
            messages: responses@,
        };
        let mut mi: usize = 0;
        while mi < monitors.len()
            invariant
                0 <= mi <= monitors@.len(),
                self.executor == old(self).executor,
                self.font_cache == old(self).font_cache,
                self.editor_preferences == old(self).editor_preferences,
                self.old_graph == old(self).old_graph,
                self.update_thumbnails == old(self).update_thumbnails,
                self.inspect_state == old(self).inspect_state,
                self.node_graph_errors == old(self).node_graph_errors,
                monitors@ == monitors_spec,
                monitors_spec == program_monitors(self.executor),
                obs == self.executor.observations@,
                skip_monitor == match self.inspect_state {
                    Some(st) => Some(st.monitor_node),
                    None => None::<NodeId>,
                },
                sweep(st0, skip_monitor, obs, update_thumbnails, monitors_spec, 0) == sweep(
                    SweepState {
                        thumbnails: self.thumbnail_renders@,
                        vector_modify: self.vector_modify@,
                        messages: responses@,
                    },
                    skip_monitor,
                    obs,
                    update_thumbnails,
                    monitors_spec,
                    mi as int,
                ),
            decreases monitors@.len() - mi,
        {
            let path = &monitors[mi];
            let ghost st_now = SweepState {
                thumbnails: self.thumbnail_renders@,
                vector_modify: self.vector_modify@,
                messages: responses@,
            };

            // Skip the monitor that manages the inspect subscription.
            let is_inspect = match &self.inspect_state {
                Some(st) => path.len() > 0 && path[path.len() - 1].0 == st.monitor_node.0,
                None => false,
            };
            if !is_inspect && path.len() >= 2 {
                let parent = path[path.len() - 2];
                match self.executor.introspect(path) {
                    Err(_) => {
                        proof {
                            assert(self.executor.program is Some);
                            assert(obs_lookup(obs, path@) is None);
                        }
                    },
                    Ok(v) => {
                        match v {
                            Value::Graphic(g) => {
                                NodeRuntime::process_graphic_element(
                                    &mut self.thumbnail_renders,
                                    parent,
                                    g,
                                    responses,
                                    update_thumbnails,
                                );
                            },
                            Value::Table(t) => {
                                store_set(&mut self.vector_modify, parent, t);
                            },
                            _ => {},
                        }
                    },
                }
            }
            proof {
                let stepped = sweep_step(st_now, skip_monitor, obs, update_thumbnails, path@);
                assert(stepped == SweepState {
                    thumbnails: self.thumbnail_renders@,
                    vector_modify: self.vector_modify@,
                    messages: responses@,
                });
            }
            mi += 1;
        }
    }

    /// One iteration of the runtime loop over a drained message batch:
    /// coalesce to the latest message per category, then act in fixed
    /// priority order (fonts, preferences, graph update, execution request).
    /// At most one compilation response and one execution response come out,
    /// corresponding to the last message of each kind in the batch.
    /// Everything one iteration of the runtime loop does, relating the
    /// state before the drain, the state after it, the drained batch, and
    /// the responses produced.
    pub open spec fn run_behavior(
        pre: NodeRuntime,
        post: NodeRuntime,
        messages: Seq<NodeRuntimeMessage>,
        out: Seq<NodeGraphUpdate>,
    ) -> bool {

                let c_font = last_font(messages);
                let c_prefs = last_preferences(messages);
                let c_graph = last_graph(messages);
                let c_exec = last_execution(messages);
                &&& post.font_cache == (match c_font {
                    Some(f) => f,
                    None => pre.font_cache,
                })
                &&& post.editor_preferences == (match c_prefs {
                    Some(p) => p,
                    None => pre.editor_preferences,
                })
                &&& out.len() == (if c_graph is Some {
                    1int
                } else {
                    0int
                }) + (if c_exec is Some {
                    1int
                } else {
                    0int
                })
                &&& (match c_graph {
                    Some(g) => {
                        &&& post.old_graph == Some(g.network)
                        &&& (g.inspect_node is None ==> post.inspect_state is None)
                        &&& (match post.inspect_state {
                            Some(st) => g.inspect_node == Some(st.inspect_node)
                                && !g.network.nodes.contains_id(st.monitor_node),
                            None => true,
                        })
                        &&& (g.inspect_node is Some ==> (post.inspect_state is Some
                            || g.network.nodes.contains_id(NodeId(u64::MAX))))
                        &&& ({
                            let compiled = match post.inspect_state {
                                Some(st) => inject_monitor(
                                    g.network,
                                    st.inspect_node,
                                    st.monitor_node,
                                ),
                                None => g.network,
                            };
                            match out[0] {
                                NodeGraphUpdate::CompilationResponse(cr) => {
                                    &&& (spec_compiles(compiled) ==> (cr.result matches Ok(t)
                                        && t.input_kind == compiled.input_kind
                                        && installed_program_for(post.executor, compiled)
                                        && cr.node_graph_errors@ == Seq::<CompileError>::empty()))
                                    &&& (!spec_compiles(compiled) ==> (match cr.result {
                                        Err(e) => compile_fails_with(compiled, e)
                                            && cr.node_graph_errors@ == seq![e],
                                        Ok(_) => false,
                                    }))
                                },
                                _ => false,
                            }
                        })
                    },
                    None => {
                        &&& post.old_graph == pre.old_graph
                        &&& post.inspect_state == pre.inspect_state
                        &&& ({
                            // A context-only drain recompiles the last known
                            // graph silently; without one, the installed
                            // program survives untouched.
                            let context_changed = c_font is Some || c_prefs is Some;
                            if context_changed && pre.old_graph is Some {
                                let g = pre.old_graph.unwrap();
                                if spec_compiles(g) {
                                    installed_program_for(post.executor, g)
                                } else {
                                    post.executor.program == pre.executor.program
                                }
                            } else {
                                post.executor.program == pre.executor.program
                            }
                        })
                    },
                })
                &&& (match c_exec {
                    Some(req) => match out[out.len() - 1] {
                        NodeGraphUpdate::ExecutionResponse(er) => {
                            &&& er.execution_id == req.execution_id
                            &&& er.transform == req.render_config.viewport.transform
                            &&& er.result == execution_outcome(
                                post.executor.program,
                                req.render_config,
                            )
                            &&& er.vector_modify@ == post.vector_modify@
                            &&& er.inspect_result == (match post.inspect_state {
                                Some(st) => Some(
                                    crate::messages::InspectResult {
                                        inspect_node: st.inspect_node,
                                        introspected_data: match post.executor.program {
                                            None => None::<Value>,
                                            Some(_) => obs_lookup(
                                                post.executor.observations@,
                                                seq![st.monitor_node],
                                            ),
                                        },
                                    },
                                ),
                                None => None::<crate::messages::InspectResult>,
                            })
                            &&& post.update_thumbnails == false
                            &&& ({
                                // The sweep refreshed the cached observation
                                // state and produced the change notifications.
                                let monitors = program_monitors(post.executor);
                                let skip_monitor = match post.inspect_state {
                                    Some(st) => Some(st.monitor_node),
                                    None => None::<NodeId>,
                                };
                                let refreshed = if c_graph is Some {
                                    true
                                } else {
                                    pre.update_thumbnails
                                };
                                let fin = sweep(
                                    SweepState {
                                        thumbnails: pruned(
                                            monitors,
                                            pre.thumbnail_renders@,
                                        ),
                                        vector_modify: pre.vector_modify@,
                                        messages: Seq::empty(),
                                    },
                                    skip_monitor,
                                    post.executor.observations@,
                                    refreshed,
                                    monitors,
                                    0,
                                );
                                &&& er.responses@ == fin.messages
                                &&& post.thumbnail_renders@ == fin.thumbnails
                                &&& post.vector_modify@ == fin.vector_modify
                            })
                        },
                        _ => false,
                    },
                    None => {
                        &&& post.thumbnail_renders == pre.thumbnail_renders
                        &&& post.vector_modify == pre.vector_modify
                    },
                })
            
    }

    pub fn run(&mut self, messages: Vec<NodeRuntimeMessage>) -> (out: Vec<NodeGraphUpdate>)
        ensures
            NodeRuntime::run_behavior(*old(self), *final(self), messages@, out@),
    {
        let c = coalesce(messages);
        let mut out: Vec<NodeGraphUpdate> = Vec::new();

        match c.font {
            Some(f) => {
                self.font_cache = f;
                // A compile error was already reported on the original
                // attempt, so this recompilation result is dropped.
                let copy = match &self.old_graph {
                    Some(g) => Some(g.duplicate()),
                    None => None,
                };
                match copy {
                    Some(g) => {
                        let _ = self.update_network(g);
                    },
                    None => {},
                }
            },
            None => {},
        }
        match c.preferences {
            Some(p) => {
                self.editor_preferences = p;
                let copy = match &self.old_graph {
                    Some(g) => Some(g.duplicate()),
                    None => None,
                };
                match copy {
                    Some(g) => {
                        let _ = self.update_network(g);
                    },
                    None => {},
                }
            },
            None => {},
        }

        match c.graph {
            Some(GraphUpdate { network, inspect_node }) => {
                let mut network = network;
                // The pre-injection graph is the last known graph.
                self.old_graph = Some(network.duplicate());
                // Splice in the monitor that manages the inspection.
                self.inspect_state = match inspect_node {
                    Some(target) => InspectState::monitor_inspect_node(&mut network, target),
                    None => None,
                };
                self.node_graph_errors = Vec::new();
                let result = self.update_network(network);
                self.update_thumbnails = true;
                let node_graph_errors = copy_errors(&self.node_graph_errors);
                out.push(
                    NodeGraphUpdate::CompilationResponse(
                        CompilationResponse { result, node_graph_errors },
                    ),
                );
            },
            None => {},
        }

        match c.execution {
            Some(ExecutionRequest { execution_id, render_config }) => {
                let transform = render_config.viewport.transform;
                let result = self.execute_network(render_config);
                let mut responses: Vec<FrontendMessage> = Vec::new();
                let update_thumbnails = self.update_thumbnails;
                self.process_monitor_nodes(&mut responses, update_thumbnails);
                self.update_thumbnails = false;
                // Resolve the inspection by reading its monitor node.
                let inspect_result = match &self.inspect_state {
                    Some(st) => st.access(&self.executor),
                    None => None,
                };
                let vector_modify = copy_store(&self.vector_modify);
                out.push(
                    NodeGraphUpdate::ExecutionResponse(
                        ExecutionResponse {
                            execution_id,
                            result,
                            responses,
                            transform,
                            vector_modify,
                            inspect_result,
                        },
                    ),
                );
            },
            None => {},
        }
        out
    }
}

/// The process-wide slot for the one live runtime instance, passed through
/// the composition root rather than held as implicit global state.
pub struct RuntimeSlot {
    pub runtime: Option<NodeRuntime>,
}

impl RuntimeSlot {
    /// An empty slot.
    pub fn new() -> (r: RuntimeSlot)
        ensures
            r.runtime is None,
    {
        RuntimeSlot { runtime: None }
    }

    /// Install a runtime instance, handing the previous one back.
    pub fn replace_node_runtime(&mut self, runtime: NodeRuntime) -> (r: Option<NodeRuntime>)
        ensures
            final(self).runtime == Some(runtime),
            r == old(self).runtime,
    {
        let mut slot = Some(runtime);
        core::mem::swap(&mut self.runtime, &mut slot);
        slot
    }

    /// Drive the installed runtime once over a drained message batch: the
    /// runtime coalesces the batch and acts on it, and the responses come
    /// back. With no runtime installed the batch is dropped and nothing
    /// runs.
    pub fn run_node_graph(&mut self, messages: Vec<NodeRuntimeMessage>) -> (r: Option<
        Vec<NodeGraphUpdate>,
    >)
        ensures
            match old(self).runtime {
                None => r is None && final(self).runtime is None,
                Some(rt) => {
                    &&& final(self).runtime is Some
                    &&& (match r {
                        Some(out) => NodeRuntime::run_behavior(
                            rt,
                            final(self).runtime.unwrap(),
                            messages@,
                            out@,
                        ),
                        None => false,
                    })
                },
            },
    {
        match &mut self.runtime {
            None => None,
            Some(rt) => Some(rt.run(messages)),
        }
    }
}

/// Read the last observed value at `path` from the installed runtime.
pub fn introspect_node(slot: &RuntimeSlot, path: &Vec<NodeId>) -> (r: Result<
    Value,
    crate::executor::IntrospectError,
>)
    ensures
        r == match slot.runtime {
            None => Err::<Value, crate::executor::IntrospectError>(
                crate::executor::IntrospectError::RuntimeNotReady,
            ),
            Some(rt) => match rt.executor.program {
                None => Err::<Value, crate::executor::IntrospectError>(
                    crate::executor::IntrospectError::RuntimeNotReady,
                ),
                Some(_) => match obs_lookup(rt.executor.observations@, path@) {
                    Some(v) => Ok::<Value, crate::executor::IntrospectError>(v),
                    None => Err::<Value, crate::executor::IntrospectError>(
                        crate::executor::IntrospectError::PathNotFound,
                    ),
                },
            },
        },
{
    match &slot.runtime {
        None => Err(crate::executor::IntrospectError::RuntimeNotReady),
        Some(rt) => rt.executor.introspect(path),
    }
}

} // verus!
