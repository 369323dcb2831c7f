//! Denotational semantics of a node network: what value each input position
//! produces for a given execution input.
//!
//! Evaluation is defined with an explicit fuel bound on the length of
//! node-to-node dependency chains; `evals_to` abstracts the fuel away and is
//! the semantics the library's laws are stated over.

use vstd::prelude::*;

use crate::graph::{InputList, Network, NodeId, NodeImpl, NodeInput, ProtoKind, Value};

verus! {

/// An opaque content token standing for a value, used by the render model.
pub open spec fn value_token(v: Value) -> u64 {
    match v {
        Value::Nothing => 0,
        Value::Uint(x) => x,
        Value::Boolean(b) => if b {
            1
        } else {
            0
        },
        Value::Graphic(g) => g,
        Value::Table(t) => t,
        Value::Render(cfg) => cfg.time_frame,
        Value::Svg(s) => s,
    }
}

/// What a built-in node kind computes from its argument values.
/// `None` marks an arity violation; a type mismatch yields `Nothing`.
pub open spec fn apply_proto(kind: ProtoKind, args: Seq<Value>) -> Option<Value> {
    match kind {
        ProtoKind::Monitor => if args.len() == 1 {
            Some(args[0])
        } else {
            None
        },
        ProtoKind::Identity => if args.len() == 1 {
            Some(args[0])
        } else {
            None
        },
        ProtoKind::Add => if args.len() == 2 {
            match (args[0], args[1]) {
                (Value::Uint(a), Value::Uint(b)) => if a + b <= u64::MAX {
                    Some(Value::Uint((a + b) as u64))
                } else {
                    Some(Value::Nothing)
                },
                _ => Some(Value::Nothing),
            }
        } else {
            None
        },
        ProtoKind::Render => if args.len() == 1 {
            Some(Value::Svg(value_token(args[0])))
        } else {
            None
        },
    }
}

/// Value produced by one input position. Fuel bounds the length of
/// node-to-node dependency chains; `None` is failure (a dangling reference,
/// an out-of-range import, an arity violation, or fuel exhaustion).
pub open spec fn eval_input(net: Network, env: Seq<Value>, inp: NodeInput, fuel: nat) -> Option<
    Value,
>
    decreases fuel, 0int, 0int,
{
    match inp {
        NodeInput::Value(v) => Some(v),
        NodeInput::Import(i) => if i < env.len() {
            Some(env[i as int])
        } else {
            None
        },
        NodeInput::Node { node_id, output_index } => if output_index == 0 && fuel > 0 {
            eval_node(net, env, node_id, (fuel - 1) as nat)
        } else {
            None
        },
    }
}

/// Values produced by a list of input positions; `None` if any fails.
pub open spec fn eval_inputs(
    net: Network,
    env: Seq<Value>,
    inps: InputList,
    fuel: nat,
) -> Option<Seq<Value>>
    decreases fuel, 1int, inps.seq().len() as int,
{
    match inps {
        InputList::Nil => Some(Seq::empty()),
        InputList::Cons(first, rest) => match eval_input(net, env, first, fuel) {
            None => None,
            Some(v) => match eval_inputs(net, env, *rest, fuel) {
                None => None,
                Some(vs) => Some(vs.insert(0, v)),
            },
        },
    }
}

/// Output of the node bound to `id`: its inputs are evaluated strictly, then
/// either a built-in kind is applied or the nested network's single export is
/// evaluated with those inputs as its imports.
pub open spec fn eval_node(net: Network, env: Seq<Value>, id: NodeId, fuel: nat) -> Option<Value>
    decreases fuel, 2int, 0int,
{
    match net.nodes.find(id) {
        None => None,
        Some(node) => match eval_inputs(net, env, node.inputs, fuel) {
            None => None,
            Some(args) => match node.implementation {
                NodeImpl::Proto(kind) => apply_proto(kind, args),
                NodeImpl::Network(sub) => if sub.exports.seq().len() == 1 {
                    eval_input(sub, args, sub.exports.seq()[0], fuel)
                } else {
                    None
                },
            },
        },
    }
}

/// The fuel-free semantics: `inp` produces `v` at some chain depth.
pub open spec fn evals_to(net: Network, env: Seq<Value>, inp: NodeInput, v: Value) -> bool {
    exists|fuel: nat| eval_input(net, env, inp, fuel) == Some(v)
}

/// Same, for a node's output.
pub open spec fn node_evals_to(net: Network, env: Seq<Value>, id: NodeId, v: Value) -> bool {
    exists|fuel: nat| eval_node(net, env, id, fuel) == Some(v)
}

/// Success is monotone in fuel, with the same value.
pub proof fn lemma_eval_input_mono(net: Network, env: Seq<Value>, inp: NodeInput, f1: nat, f2: nat)
    requires
        f1 <= f2,
        eval_input(net, env, inp, f1) is Some,
    ensures
        eval_input(net, env, inp, f2) == eval_input(net, env, inp, f1),
    decreases f1, 0int, 0int,
{
    match inp {
        NodeInput::Value(_) => {},
        NodeInput::Import(_) => {},
        NodeInput::Node { node_id, output_index } => {
            lemma_eval_node_mono(net, env, node_id, (f1 - 1) as nat, (f2 - 1) as nat);
        },
    }
}

pub proof fn lemma_eval_inputs_mono(
    net: Network,
    env: Seq<Value>,
    inps: InputList,
    f1: nat,
    f2: nat,
)
    requires
        f1 <= f2,
        eval_inputs(net, env, inps, f1) is Some,
    ensures
        eval_inputs(net, env, inps, f2) == eval_inputs(net, env, inps, f1),
    decreases f1, 1int, inps.seq().len() as int,
{
    match inps {
        InputList::Nil => {},
        InputList::Cons(first, rest) => {
            lemma_eval_input_mono(net, env, first, f1, f2);
            lemma_eval_inputs_mono(net, env, *rest, f1, f2);
        },
    }
}

pub proof fn lemma_eval_node_mono(net: Network, env: Seq<Value>, id: NodeId, f1: nat, f2: nat)
    requires
        f1 <= f2,
        eval_node(net, env, id, f1) is Some,
    ensures
        eval_node(net, env, id, f2) == eval_node(net, env, id, f1),
    decreases f1, 2int, 0int,
{
    match net.nodes.find(id) {
        None => {},
        Some(node) => {
            lemma_eval_inputs_mono(net, env, node.inputs, f1, f2);
            let args = eval_inputs(net, env, node.inputs, f1).unwrap();
            match node.implementation {
                NodeImpl::Proto(_) => {},
                NodeImpl::Network(sub) => {
                    if sub.exports.seq().len() == 1 {
                        lemma_eval_input_mono(sub, args, sub.exports.seq()[0], f1, f2);
                    }
                },
            }
        },
    }
}

/// A position produces at most one value under the fuel-free semantics.
pub proof fn lemma_evals_to_unique(
    net: Network,
    env: Seq<Value>,
    inp: NodeInput,
    v1: Value,
    v2: Value,
)
    requires
        evals_to(net, env, inp, v1),
        evals_to(net, env, inp, v2),
    ensures
        v1 == v2,
{
    let f1 = choose|f: nat| eval_input(net, env, inp, f) == Some(v1);
    let f2 = choose|f: nat| eval_input(net, env, inp, f) == Some(v2);
    if f1 <= f2 {
        lemma_eval_input_mono(net, env, inp, f1, f2);
    } else {
        lemma_eval_input_mono(net, env, inp, f2, f1);
    }
}

} // verus!
