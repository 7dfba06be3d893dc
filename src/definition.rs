use vstd::prelude::*;

verus! {

/// A parameter of a graph operation.
pub enum OpParam {
    Int(i64),
    String(String),
}

/// One named operation of a component's generation or constraint graph.
pub struct GraphNode {
    pub name: String,
    pub description: String,
    pub size: u64,
    pub ty: String,
    pub op: String,
    pub params: Vec<OpParam>,
    pub inputs: Vec<String>,
}

pub enum ColumnKind {
    Witness,
    Constant,
}

/// A trace column, produced by a node of the generation graph.
pub struct Column {
    pub name: String,
    pub description: String,
    pub generation_node: String,
    pub kind: ColumnKind,
}

/// A constraint, whose value is the output of a node of the constraint graph.
pub struct Constraint {
    pub name: String,
    pub description: String,
    pub constraint_node: String,
}

/// A verifier-chosen random element, drawn after the listed witness values.
pub struct InteractionElement {
    pub name: String,
    pub description: String,
    pub witness_dependencies: Vec<String>,
}

pub struct ComponentInstance {
    pub n_bits: u32,
    pub generation_graph: Vec<GraphNode>,
    pub columns: Vec<Column>,
    pub outputs: Vec<String>,
    pub constraint_graph: Vec<GraphNode>,
    pub constraints: Vec<Constraint>,
    pub interaction_elements: Vec<InteractionElement>,
}

/// A declarative description of a component: named operation graphs over named buffers.
pub struct Component {
    pub name: String,
    pub version: String,
    pub description: String,
    pub instances: Vec<ComponentInstance>,
}

/// The characters of each string, in order.
pub open spec fn texts(v: Seq<String>) -> Seq<Seq<char>> {
    v.map_values(|s: String| s@)
}

/// A parameter as a plain value: `(true, i, _)` for the integer `i`, `(false, _, s)` for the
/// string `s`.
pub open spec fn param_view(p: OpParam) -> (bool, int, Seq<char>) {
    match p {
        OpParam::Int(i) => int_p(i as int),
        OpParam::String(s) => str_p(s@),
    }
}

pub open spec fn int_p(i: int) -> (bool, int, Seq<char>) {
    (true, i, Seq::empty())
}

pub open spec fn str_p(s: Seq<char>) -> (bool, int, Seq<char>) {
    (false, 0, s)
}

/// Each parameter as a plain value.
pub open spec fn param_views(v: Seq<OpParam>) -> Seq<(bool, int, Seq<char>)> {
    v.map_values(|p: OpParam| param_view(p))
}

/// The node has the given name, description, size, type, operation, parameters and inputs.
pub open spec fn node_is(
    n: GraphNode,
    name: Seq<char>,
    description: Seq<char>,
    size: u64,
    ty: Seq<char>,
    op: Seq<char>,
    params: Seq<(bool, int, Seq<char>)>,
    inputs: Seq<Seq<char>>,
) -> bool {
    &&& n.name@ == name
    &&& n.description@ == description
    &&& n.size == size
    &&& n.ty@ == ty
    &&& n.op@ == op
    &&& param_views(n.params@) == params
    &&& texts(n.inputs@) == inputs
}

/// An owned copy of a string literal.
pub fn text(s: &str) -> (r: String)
    ensures
        r@ == s@,
{
    s.to_owned()
}

} // verus!
