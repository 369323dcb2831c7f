//! The executor core: owns the current compiled program, executes it against
//! an input value, and can be introspected for the last value observed at any
//! monitor path.

use vstd::prelude::*;

use crate::compile::{CompiledProgram, TypeInfo};
use crate::graph::{kind_of, value_kind, InputList, Network, NodeId, NodeImpl, NodeInput, ProtoKind, Value, ValueKind};
use crate::semantics::{apply_proto, eval_input, eval_inputs, eval_node, value_token};

verus! {

/// Why an execution request failed, reported per request and never fatal.
#[derive(Clone, Copy, PartialEq, Eq, Structural, Debug)]
pub enum ExecutionError {
    /// No compiled program exists yet.
    NoCompiledProgram,
    /// The program's declared input type does not match the input value.
    InvalidInputType { expected: ValueKind, actual: ValueKind },
    /// The program's export did not evaluate to a value.
    NotEvaluated,
}

/// Why an introspection found no value.
#[derive(Clone, Copy, PartialEq, Eq, Structural, Debug)]
pub enum IntrospectError {
    /// No program has been installed.
    RuntimeNotReady,
    /// The path does not correspond to an observed monitor.
    PathNotFound,
}

/// Execute one built-in node kind on its argument values.
pub fn run_proto(kind: ProtoKind, args: &Vec<Value>) -> (r: Option<Value>)
    ensures
        r == apply_proto(kind, args@),
{
    match kind {
        ProtoKind::Monitor | ProtoKind::Identity => {
            if args.len() == 1 {
                Some(args[0])
            } else {
                None
            }
        },
        ProtoKind::Add => {
            if args.len() == 2 {
                match (args[0], args[1]) {
                    (Value::Uint(a), Value::Uint(b)) => {
                        if a <= u64::MAX - b {
                            Some(Value::Uint(a + b))
                        } else {
                            Some(Value::Nothing)
                        }
                    },
                    _ => Some(Value::Nothing),
                }
            } else {
                None
            }
        },
        ProtoKind::Render => {
            if args.len() == 1 {
                let t = match args[0] {
                    Value::Nothing => 0,
                    Value::Uint(x) => x,
                    Value::Boolean(b) => if b {
                        1
                    } else {
                        0
                    },
                    Value::Graphic(g) => g,
                    Value::Table(t) => t,
                    Value::Render(cfg) => cfg.time_frame,
                    Value::Svg(s) => s,
                };
                assert(t == value_token(args@[0]));
                Some(Value::Svg(t))
            } else {
                None
            }
        },
    }
}

/// Evaluate one input position, mirroring [`eval_input`].
pub fn run_input(net: &Network, env: &Vec<Value>, inp: &NodeInput, fuel: u64) -> (r: Option<Value>)
    ensures
        r == eval_input(*net, env@, *inp, fuel as nat),
    decreases fuel as nat, 0int, 0int,
{
    match inp {
        NodeInput::Value(v) => Some(*v),
        NodeInput::Import(i) => {
            if *i < env.len() {
                Some(env[*i])
            } else {
                None
            }
        },
        NodeInput::Node { node_id, output_index } => {
            if *output_index == 0 && fuel > 0 {
                run_node(net, env, *node_id, fuel - 1)
            } else {
                None
            }
        },
    }
}

/// Evaluate a list of input positions, mirroring [`eval_inputs`].
pub fn run_inputs(net: &Network, env: &Vec<Value>, inps: &InputList, fuel: u64) -> (r: Option<
    Vec<Value>,
>)
    ensures
        match r {
            Some(vs) => eval_inputs(*net, env@, *inps, fuel as nat) == Some(vs@),
            None => eval_inputs(*net, env@, *inps, fuel as nat) is None,
        },
    decreases fuel as nat, 1int, inps.seq().len() as int,
{
    match inps {
        InputList::Nil => {
            let vs: Vec<Value> = Vec::new();
            assert(vs@ =~= Seq::<Value>::empty());
            Some(vs)
        },
        InputList::Cons(first, rest) => {
            match run_input(net, env, first, fuel) {
                None => None,
                Some(v) => {
                    match run_inputs(net, env, rest, fuel) {
                        None => None,
                        Some(mut vs) => {
                            vs.insert(0, v);
                            Some(vs)
                        },
                    }
                },
            }
        },
    }
}

/// Evaluate the output of a node, mirroring [`eval_node`].
pub fn run_node(net: &Network, env: &Vec<Value>, id: NodeId, fuel: u64) -> (r: Option<Value>)
    ensures
        r == eval_node(*net, env@, id, fuel as nat),
    decreases fuel as nat, 2int, 0int,
{
    match net.nodes.lookup(id) {
        None => None,
        Some(node) => {
            match run_inputs(net, env, &node.inputs, fuel) {
                None => None,
                Some(args) => {
                    match &node.implementation {
                        NodeImpl::Proto(kind) => run_proto(*kind, &args),
                        NodeImpl::Network(sub) => {
                            if sub.exports.len_is(1) {
                                match sub.exports.nth(0) {
                                    Some(exp) => run_input(sub, &args, &exp, fuel),
                                    None => None,
                                }
                            } else {
                                None
                            }
                        },
                    }
                },
            }
        },
    }
}

/// The value cached at a monitor path: descend through nested networks along
/// the path, then take the addressed node's output.
pub open spec fn observe(net: Network, env: Seq<Value>, path: Seq<NodeId>, fuel: nat) -> Option<
    Value,
>
    decreases path.len(),
{
    if path.len() == 0 {
        None
    } else if path.len() == 1 {
        eval_node(net, env, path[0], fuel)
    } else {
        match net.nodes.find(path[0]) {
            None => None,
            Some(node) => match node.implementation {
                NodeImpl::Proto(_) => None,
                NodeImpl::Network(sub) => match eval_inputs(net, env, node.inputs, fuel) {
                    None => None,
                    Some(args) => observe(sub, args, path.drop_first(), fuel),
                },
            },
        }
    }
}

/// Read the value at `path@.skip(i)`, mirroring [`observe`].
pub fn run_observe(net: &Network, env: &Vec<Value>, path: &Vec<NodeId>, i: usize, fuel: u64) -> (r:
    Option<Value>)
    requires
        i <= path@.len(),
    ensures
        r == observe(*net, env@, path@.skip(i as int), fuel as nat),
    decreases path@.len() - i,
{
    proof {
        assert(path@.skip(i as int).len() == path@.len() - i);
    }
    if i == path.len() {
        None
    } else if i == path.len() - 1 {
        assert(path@.skip(i as int)[0] == path@[i as int]);
        run_node(net, env, path[i], fuel)
    } else {
        assert(path@.skip(i as int)[0] == path@[i as int]);
        proof {
            assert(path@.skip(i as int).drop_first() =~= path@.skip(i as int + 1));
        }
        match net.nodes.lookup(path[i]) {
            None => None,
            Some(node) => {
                match &node.implementation {
                    NodeImpl::Proto(_) => None,
                    NodeImpl::Network(sub) => {
                        match run_inputs(net, env, &node.inputs, fuel) {
                            None => None,
                            Some(args) => run_observe(sub, &args, path, i + 1, fuel),
                        }
                    },
                }
            },
        }
    }
}

/// First value recorded under `path`, if any.
pub open spec fn obs_lookup(obs: Seq<(Vec<NodeId>, Value)>, path: Seq<NodeId>) -> Option<Value>
    decreases obs.len(),
{
    if obs.len() == 0 {
        None
    } else if obs[0].0@ == path {
        Some(obs[0].1)
    } else {
        obs_lookup(obs.drop_first(), path)
    }
}

pub proof fn lemma_obs_lookup_push(obs: Seq<(Vec<NodeId>, Value)>, e: (Vec<NodeId>, Value), path: Seq<NodeId>)
    ensures
        obs_lookup(obs.push(e), path) == if obs_lookup(obs, path) is Some {
            obs_lookup(obs, path)
        } else if e.0@ == path {
            Some(e.1)
        } else {
            None::<Value>
        },
    decreases obs.len(),
{
    if obs.len() == 0 {
        assert(obs.push(e)[0] == e);
        assert(obs.push(e).len() == 1);
        assert(obs.push(e).drop_first() =~= Seq::<(Vec<NodeId>, Value)>::empty());
        assert(obs_lookup(obs, path) is None);
        if e.0@ == path {
            assert(obs_lookup(obs.push(e), path) == Some(e.1));
        } else {
            assert(obs_lookup(obs.push(e), path) == obs_lookup(obs.push(e).drop_first(), path));
            assert(obs_lookup(obs.push(e), path) is None);
        }
    } else {
        assert(obs.push(e)[0] == obs[0]);
        assert(obs.push(e).drop_first() =~= obs.drop_first().push(e));
        lemma_obs_lookup_push(obs.drop_first(), e, path);
        if obs[0].0@ == path {
            assert(obs_lookup(obs, path) == Some(obs[0].1));
            assert(obs_lookup(obs.push(e), path) == Some(obs[0].1));
        } else {
            assert(obs_lookup(obs, path) == obs_lookup(obs.drop_first(), path));
            assert(obs_lookup(obs.push(e), path) == obs_lookup(obs.drop_first().push(e), path));
        }
    }
}

pub proof fn lemma_obs_lookup_skip(obs: Seq<(Vec<NodeId>, Value)>, path: Seq<NodeId>, i: int)
    requires
        0 <= i < obs.len(),
    ensures
        obs_lookup(obs.skip(i), path) == if obs[i].0@ == path {
            Some(obs[i].1)
        } else {
            obs_lookup(obs.skip(i + 1), path)
        },
{
    assert(obs.skip(i).len() > 0);
    assert(obs.skip(i)[0] == obs[i]);
    assert(obs.skip(i).drop_first() =~= obs.skip(i + 1));
}

/// Whether `path` is one of the program's monitor paths.
pub open spec fn is_monitor_path(prog: CompiledProgram, path: Seq<NodeId>) -> bool {
    exists|j: int| 0 <= j < prog.monitors@.len() && (#[trigger] prog.monitors@[j])@ == path
}

/// What one execution of the program observes at `path`.
pub open spec fn program_observation(prog: CompiledProgram, input: Value, path: Seq<NodeId>) -> Option<Value> {
    if is_monitor_path(prog, path) {
        observe(prog.network, seq![input], path, prog.fuel as nat)
    } else {
        None
    }
}

/// The output value of one execution of the program.
pub open spec fn program_output(prog: CompiledProgram, input: Value) -> Option<Value> {
    if prog.network.exports.seq().len() == 1 {
        eval_input(prog.network, seq![input], prog.network.exports.seq()[0], prog.fuel as nat)
    } else {
        None
    }
}

/// Like [`program_observation`], restricted to the first `j` monitors.
pub open spec fn partial_observation(
    prog: CompiledProgram,
    input: Value,
    path: Seq<NodeId>,
    j: int,
) -> Option<Value> {
    if exists|k: int| 0 <= k < j && k < prog.monitors@.len() && (#[trigger] prog.monitors@[k])@
        == path {
        observe(prog.network, seq![input], path, prog.fuel as nat)
    } else {
        None
    }
}

/// Compare two node paths.
pub fn path_eq(a: &Vec<NodeId>, b: &Vec<NodeId>) -> (r: bool)
    ensures
        r == (a@ == b@),
{
    if a.len() != b.len() {
        return false;
    }
    let mut i: usize = 0;
    while i < a.len()
        invariant
            0 <= i <= a.len(),
            a@.len() == b@.len(),
            forall|j: int| 0 <= j < i ==> a@[j] == b@[j],
        decreases a.len() - i,
    {
        if a[i].0 != b[i].0 {
            return false;
        }
        i += 1;
    }
    proof {
        assert(a@ =~= b@);
    }
    true
}

/// The executor core: the only holder of the running compiled program.
/// The program is replaced wholesale on update, never mutated in place.
pub struct ExecutorCore {
    /// The installed program, if any.
    pub program: Option<CompiledProgram>,
    /// Last observed value per monitor path, refreshed by each execution.
    pub observations: Vec<(Vec<NodeId>, Value)>,
}

impl ExecutorCore {
    /// An executor with no program installed.
    pub fn new() -> (r: ExecutorCore)
        ensures
            r.program is None,
            r.observations@ == Seq::<(Vec<NodeId>, Value)>::empty(),
    {
        ExecutorCore { program: None, observations: Vec::new() }
    }

    /// Install a compiled program, replacing the previous one and clearing
    /// stale observations. Returns the program's resolved type information.
    pub fn update(&mut self, prog: CompiledProgram) -> (t: TypeInfo)
        ensures
            final(self).program == Some(prog),
            final(self).observations@ == Seq::<(Vec<NodeId>, Value)>::empty(),
            t.input_kind == prog.input_kind,
    {
        let t = TypeInfo { input_kind: prog.input_kind };
        self.program = Some(prog);
        self.observations = Vec::new();
        t
    }

    /// The input type the installed program declares, if any.
    pub fn input_type(&self) -> (r: Option<ValueKind>)
        ensures
            r == match self.program {
                None => None::<ValueKind>,
                Some(p) => Some(p.input_kind),
            },
    {
        match &self.program {
            None => None,
            Some(p) => Some(p.input_kind),
        }
    }

    /// Run the installed program once against `input`. On a run, every
    /// monitor's observation is refreshed; on a failure before the run
    /// (no program, wrong input type) the state is unchanged.
    pub fn execute(&mut self, input: Value) -> (r: Result<Value, ExecutionError>)
        ensures
            final(self).program == old(self).program,
            match old(self).program {
                None => {
                    &&& r == Err::<Value, ExecutionError>(ExecutionError::NoCompiledProgram)
                    &&& final(self).observations == old(self).observations
                },
                Some(prog) => {
                    if kind_of(input) != prog.input_kind {
                        &&& r == Err::<Value, ExecutionError>(
                            ExecutionError::InvalidInputType {
                                expected: prog.input_kind,
                                actual: kind_of(input),
                            },
                        )
                        &&& final(self).observations == old(self).observations
                    } else {
                        &&& forall|path: Seq<NodeId>|
                            obs_lookup(final(self).observations@, path) == program_observation(
                                prog,
                                input,
                                path,
                            )
                        &&& r == match program_output(prog, input) {
                            Some(v) => Ok::<Value, ExecutionError>(v),
                            None => Err::<Value, ExecutionError>(ExecutionError::NotEvaluated),
                        }
                    }
                },
            },
    {
        let prog = match &self.program {
            None => {
                return Err(ExecutionError::NoCompiledProgram);
            },
            Some(prog) => prog,
        };
        let actual = value_kind(&input);
        if actual != prog.input_kind {
            return Err(ExecutionError::InvalidInputType { expected: prog.input_kind, actual });
        }
        let env: Vec<Value> = vec![input];
        proof {
            assert(env@ =~= seq![input]);
        }

        // Refresh every monitor's observation.
        let mut obs: Vec<(Vec<NodeId>, Value)> = Vec::new();
        let mut j: usize = 0;
        while j < prog.monitors.len()
            invariant
                0 <= j <= prog.monitors@.len(),
                env@ == seq![input],
                forall|path: Seq<NodeId>|
                    obs_lookup(obs@, path) == partial_observation(*prog, input, path, j as int),
            decreases prog.monitors@.len() - j,
        {
            let path = &prog.monitors[j];
            let ghost obs0 = obs@;
            proof {
                assert(path@.skip(0) =~= path@);
            }
            let observed = run_observe(&prog.network, &env, path, 0, prog.fuel);
            match observed {
                Some(v) => {
                    let entry = (crate::compile::copy_path(path), v);
                    obs.push(entry);
                    proof {
                        assert forall|p: Seq<NodeId>|
                            obs_lookup(obs@, p) == partial_observation(
                                *prog,
                                input,
                                p,
                                j as int + 1,
                            ) by {
                            lemma_obs_lookup_push(obs0, entry, p);
                        }
                    }
                },
                None => {
                    proof {
                        assert forall|p: Seq<NodeId>|
                            obs_lookup(obs@, p) == partial_observation(
                                *prog,
                                input,
                                p,
                                j as int + 1,
                            ) by {
                            if prog.monitors@[j as int]@ == p {
                                assert(observe(prog.network, seq![input], p, prog.fuel as nat)
                                    is None);
                            }
                        }
                    }
                },
            }
            j += 1;
        }

        // Evaluate the single export.
        let out = if prog.network.exports.len_is(1) {
            match prog.network.exports.nth(0) {
                Some(exp) => run_input(&prog.network, &env, &exp, prog.fuel),
                None => None,
            }
        } else {
            None
        };
        let result = match out {
            Some(v) => Ok(v),
            None => Err(ExecutionError::NotEvaluated),
        };
        self.observations = obs;
        result
    }

    /// Read the last observed value at `path`.
    pub fn introspect(&self, path: &Vec<NodeId>) -> (r: Result<Value, IntrospectError>)
        ensures
            match self.program {
                None => r == Err::<Value, IntrospectError>(IntrospectError::RuntimeNotReady),
                Some(_) => r == match obs_lookup(self.observations@, path@) {
                    Some(v) => Ok::<Value, IntrospectError>(v),
                    None => Err::<Value, IntrospectError>(IntrospectError::PathNotFound),
                },
            },
    {
        match &self.program {
            None => {
                return Err(IntrospectError::RuntimeNotReady);
            },
            Some(_) => {},
        }
        let obs = &self.observations;
        let mut i: usize = 0;
        proof {
            assert(obs@.skip(0) =~= obs@);
        }
        while i < obs.len()
            invariant
                self.program is Some,
                obs == &self.observations,
                0 <= i <= obs@.len(),
                obs_lookup(obs@, path@) == obs_lookup(obs@.skip(i as int), path@),
            decreases obs@.len() - i,
        {
            proof {
                lemma_obs_lookup_skip(obs@, path@, i as int);
            }
            if path_eq(&obs[i].0, path) {
                return Ok(obs[i].1);
            }
            i += 1;
        }
        proof {
            assert(obs@.skip(obs@.len() as int) =~= Seq::<(Vec<NodeId>, Value)>::empty());
        }
        Err(IntrospectError::PathNotFound)
    }
}

} // verus!
