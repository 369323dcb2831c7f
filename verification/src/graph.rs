//! The graph value: a directed dataflow structure of typed nodes, possibly
//! nested, with edges as value-producing dependencies.

use vstd::prelude::*;

verus! {

/// Identifier of a node, unique within one level of a node network.
#[derive(Clone, Copy, PartialEq, Eq, Structural, Debug)]
pub struct NodeId(pub u64);

/// A 2D viewport transform with fixed-point (milli-unit) entries.
#[derive(Clone, Copy, PartialEq, Eq, Structural, Debug)]
pub struct Transform {
    pub scale_milli: u64,
    pub translate_x_milli: i64,
    pub translate_y_milli: i64,
}

/// The region and resolution an execution renders into.
#[derive(Clone, Copy, PartialEq, Eq, Structural, Debug)]
pub struct Footprint {
    pub transform: Transform,
    pub resolution_x: u64,
    pub resolution_y: u64,
}

/// Per-execution configuration handed to the compiled graph as its input.
#[derive(Clone, Copy, PartialEq, Eq, Structural, Debug)]
pub struct RenderConfig {
    pub viewport: Footprint,
    pub time_frame: u64,
    pub hide_artboards: bool,
    pub for_export: bool,
}

/// A dynamically typed value flowing through the graph: a closed universe of
/// tags, each carrying plain data.
#[derive(Clone, Copy, PartialEq, Eq, Structural, Debug)]
pub enum Value {
    Nothing,
    Uint(u64),
    Boolean(bool),
    /// A renderable scene value (opaque content token).
    Graphic(u64),
    /// A tabular/structured data snapshot (opaque content token).
    Table(u64),
    /// An execution configuration, the input of a render graph.
    Render(RenderConfig),
    /// A rendered document (opaque content token).
    Svg(u64),
}

/// The tag of a [`Value`], used for input type checks.
#[derive(Clone, Copy, PartialEq, Eq, Structural, Debug)]
pub enum ValueKind {
    Nothing,
    Uint,
    Boolean,
    Graphic,
    Table,
    Render,
    Svg,
}

pub open spec fn kind_of(v: Value) -> ValueKind {
    match v {
        Value::Nothing => ValueKind::Nothing,
        Value::Uint(_) => ValueKind::Uint,
        Value::Boolean(_) => ValueKind::Boolean,
        Value::Graphic(_) => ValueKind::Graphic,
        Value::Table(_) => ValueKind::Table,
        Value::Render(_) => ValueKind::Render,
        Value::Svg(_) => ValueKind::Svg,
    }
}

/// Executable tag query for a value.
pub fn value_kind(v: &Value) -> (k: ValueKind)
    ensures
        k == kind_of(*v),
{
    match v {
        Value::Nothing => ValueKind::Nothing,
        Value::Uint(_) => ValueKind::Uint,
        Value::Boolean(_) => ValueKind::Boolean,
        Value::Graphic(_) => ValueKind::Graphic,
        Value::Table(_) => ValueKind::Table,
        Value::Render(_) => ValueKind::Render,
        Value::Svg(_) => ValueKind::Svg,
    }
}

/// The built-in executable node kinds.
#[derive(Clone, Copy, PartialEq, Eq, Structural, Debug)]
pub enum ProtoKind {
    /// Zero-effect passthrough that caches the last value it forwarded.
    Monitor,
    /// Passthrough without caching.
    Identity,
    /// Addition of two unsigned integers.
    Add,
    /// Renders its argument into a document.
    Render,
}

/// One input edge of a node.
#[derive(Clone, Copy, PartialEq, Eq, Structural, Debug)]
pub enum NodeInput {
    /// The output of another node in the same network.
    Node { node_id: NodeId, output_index: u64 },
    /// An inline constant.
    Value(Value),
    /// The enclosing node's input with the given index (the execution input,
    /// at the root level).
    Import(usize),
}

/// An ordered list of input edges.
pub enum InputList {
    Nil,
    Cons(NodeInput, Box<InputList>),
}

/// A node: its input edges and what it does.
pub struct Node {
    pub inputs: InputList,
    pub implementation: NodeImpl,
}

/// A node either runs a built-in kind or wraps a nested network.
pub enum NodeImpl {
    Proto(ProtoKind),
    Network(Network),
}

/// An ordered arena of nodes addressed by id.
pub enum NodeList {
    Nil,
    Cons(NodeId, Box<Node>, Box<NodeList>),
}

/// One level of a node graph: an arena of nodes addressed by id, plus the
/// exported outputs. `input_kind` declares the type of the value the root
/// imports receive.
pub struct Network {
    pub nodes: NodeList,
    pub exports: InputList,
    pub input_kind: ValueKind,
}

impl InputList {
    /// The edges as a sequence.
    pub open spec fn seq(self) -> Seq<NodeInput>
        decreases self,
    {
        match self {
            InputList::Nil => Seq::empty(),
            InputList::Cons(inp, rest) => rest.seq().insert(0, inp),
        }
    }

    /// Whether the list has exactly `k` edges (overflow-free length test).
    pub fn len_is(&self, k: usize) -> (r: bool)
        ensures
            r == (self.seq().len() == k),
        decreases *self,
    {
        match self {
            InputList::Nil => k == 0,
            InputList::Cons(_, rest) => k > 0 && rest.len_is(k - 1),
        }
    }

    /// The edge at position `k`.
    pub fn nth(&self, k: usize) -> (r: Option<NodeInput>)
        ensures
            match r {
                Some(inp) => k < self.seq().len() && inp == self.seq()[k as int],
                None => k >= self.seq().len(),
            },
        decreases *self,
    {
        match self {
            InputList::Nil => None,
            InputList::Cons(inp, rest) => {
                if k == 0 {
                    Some(*inp)
                } else {
                    rest.nth(k - 1)
                }
            },
        }
    }

    /// Deep copy.
    pub fn duplicate(&self) -> (r: InputList)
        ensures
            r == *self,
        decreases *self,
    {
        match self {
            InputList::Nil => InputList::Nil,
            InputList::Cons(inp, rest) => InputList::Cons(*inp, Box::new(rest.duplicate())),
        }
    }
}

/// Build an input list from a vector of edges.
pub fn input_list(edges: &Vec<NodeInput>) -> (l: InputList)
    ensures
        l.seq() == edges@,
{
    let l = input_list_from(edges, 0);
    proof {
        assert(edges@.skip(0) =~= edges@);
    }
    l
}

fn input_list_from(edges: &Vec<NodeInput>, start: usize) -> (l: InputList)
    requires
        start <= edges@.len(),
    ensures
        l.seq() == edges@.skip(start as int),
    decreases edges@.len() - start,
{
    if start == edges.len() {
        proof {
            assert(edges@.skip(start as int) =~= Seq::<NodeInput>::empty());
        }
        InputList::Nil
    } else {
        let rest = input_list_from(edges, start + 1);
        let l = InputList::Cons(edges[start], Box::new(rest));
        proof {
            assert(l.seq() =~= edges@.skip(start as int));
        }
        l
    }
}

impl NodeList {
    /// The bound ids, in order.
    pub open spec fn ids(self) -> Seq<NodeId>
        decreases self,
    {
        match self {
            NodeList::Nil => Seq::empty(),
            NodeList::Cons(id, _, rest) => rest.ids().insert(0, id),
        }
    }

    /// First node bound to `id`, if any.
    pub open spec fn find(self, id: NodeId) -> Option<Node>
        decreases self,
    {
        match self {
            NodeList::Nil => None,
            NodeList::Cons(bound, node, rest) => if bound == id {
                Some(*node)
            } else {
                rest.find(id)
            },
        }
    }

    /// Whether some node is bound to `id`.
    pub open spec fn contains_id(self, id: NodeId) -> bool
        decreases self,
    {
        match self {
            NodeList::Nil => false,
            NodeList::Cons(bound, _, rest) => bound == id || rest.contains_id(id),
        }
    }

    /// Every node id occurs at most once.
    pub open spec fn ids_unique(self) -> bool
        decreases self,
    {
        match self {
            NodeList::Nil => true,
            NodeList::Cons(bound, _, rest) => !rest.contains_id(bound) && rest.ids_unique(),
        }
    }

    pub proof fn lemma_find_some_iff_contains(self, id: NodeId)
        ensures
            self.find(id) is Some <==> self.contains_id(id),
        decreases self,
    {
        match self {
            NodeList::Nil => {},
            NodeList::Cons(_, _, rest) => {
                rest.lemma_find_some_iff_contains(id);
            },
        }
    }

    /// Look the node bound to `id` up.
    pub fn lookup(&self, id: NodeId) -> (r: Option<&Node>)
        ensures
            match r {
                Some(n) => self.find(id) == Some(*n),
                None => self.find(id) is None,
            },
        decreases *self,
    {
        match self {
            NodeList::Nil => None,
            NodeList::Cons(bound, node, rest) => {
                if bound.0 == id.0 {
                    Some(node)
                } else {
                    rest.lookup(id)
                }
            },
        }
    }

    /// The largest id bound here (it is bound), if the list is non-empty.
    pub fn max_id(&self) -> (r: Option<u64>)
        ensures
            match r {
                Some(m) => {
                    &&& forall|id: NodeId| self.contains_id(id) ==> id.0 <= m
                    &&& self.contains_id(NodeId(m))
                },
                None => self is Nil,
            },
        decreases *self,
    {
        match self {
            NodeList::Nil => None,
            NodeList::Cons(bound, _, rest) => {
                let m = match rest.max_id() {
                    None => bound.0,
                    Some(m) => if m > bound.0 {
                        m
                    } else {
                        bound.0
                    },
                };
                proof {
                    assert forall|id: NodeId| self.contains_id(id) implies id.0 <= m by {
                        if id != *bound {
                            assert(rest.contains_id(id));
                        }
                    }
                }
                Some(m)
            },
        }
    }

    /// An id not bound in this list: one past the maximum. It exists unless
    /// a node already carries the largest representable id.
    pub fn fresh_id(&self) -> (r: Option<NodeId>)
        ensures
            match r {
                Some(id) => !self.contains_id(id),
                None => self.contains_id(NodeId(u64::MAX)),
            },
    {
        match self.max_id() {
            None => Some(NodeId(0)),
            Some(m) => {
                if m == u64::MAX {
                    None
                } else {
                    Some(NodeId(m + 1))
                }
            },
        }
    }

    /// Deep copy.
    pub fn duplicate(&self) -> (r: NodeList)
        ensures
            r == *self,
        decreases *self,
    {
        match self {
            NodeList::Nil => NodeList::Nil,
            NodeList::Cons(id, node, rest) => NodeList::Cons(
                *id,
                Box::new(node.duplicate()),
                Box::new(rest.duplicate()),
            ),
        }
    }
}

impl Node {
    /// Deep copy.
    pub fn duplicate(&self) -> (r: Node)
        ensures
            r == *self,
        decreases *self,
    {
        Node {
            inputs: self.inputs.duplicate(),
            implementation: match &self.implementation {
                NodeImpl::Proto(kind) => NodeImpl::Proto(*kind),
                NodeImpl::Network(sub) => NodeImpl::Network(sub.duplicate()),
            },
        }
    }
}

impl Network {
    /// Deep copy of a network (the runtime never mutates the caller's graph).
    pub fn duplicate(&self) -> (r: Network)
        ensures
            r == *self,
        decreases *self,
    {
        Network {
            nodes: self.nodes.duplicate(),
            exports: self.exports.duplicate(),
            input_kind: self.input_kind,
        }
    }
}

} // verus!
