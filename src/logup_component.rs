use vstd::prelude::*;
use crate::definition::{
    int_p, node_is, param_views, str_p, text, texts, Column, ColumnKind, Component, ComponentInstance,
    Constraint, GraphNode, InteractionElement, OpParam,
};

verus! {

fn node(
    name: &str,
    description: &str,
    size: u64,
    ty: &str,
    op: &str,
    params: Vec<OpParam>,
    inputs: Vec<String>,
) -> (r: GraphNode)
    ensures
        r.name@ == name@,
        r.description@ == description@,
        r.size == size,
        r.ty@ == ty@,
        r.op@ == op@,
        r.params == params,
        r.inputs == inputs,
{
    GraphNode {
        name: text(name),
        description: text(description),
        size,
        ty: text(ty),
        op: text(op),
        params,
        inputs,
    }
}

fn str_param(s: &str) -> (r: OpParam)
    ensures
        r matches OpParam::String(t) && t@ == s@,
{
    OpParam::String(text(s))
}

/// The generation graph of the LogUp component over `n` values.
pub open spec fn logup_generation_graph_is(g: Seq<GraphNode>, n: u64) -> bool {
    &&& g.len() == 11
    &&& node_is(
        g[0],
        "values"@,
        "Input values"@,
        n,
        "M31"@,
        "generation_input"@,
        seq![str_p("values"@)],
        seq![],
    )
    &&& node_is(
        g[1],
        "zero"@,
        "Zero value"@,
        1,
        "QM31"@,
        "constant"@,
        seq![int_p(0)],
        seq![],
    )
    &&& node_is(
        g[2],
        "one"@,
        "One value"@,
        1,
        "QM31"@,
        "constant"@,
        seq![int_p(1)],
        seq![],
    )
    &&& node_is(
        g[3],
        "multiple_ones"@,
        "[1; n_bits]"@,
        n,
        "QM31"@,
        "repeat"@,
        seq![str_p("one"@), int_p(1), int_p(n as int)],
        seq![],
    )
    &&& node_is(
        g[4],
        "log_up_random_shift"@,
        "[lambda; n_bits]"@,
        n,
        "QM31"@,
        "repeat"@,
        seq![str_p("log_up_shift_element"@), int_p(1), int_p(n as int)],
        seq![],
    )
    &&& node_is(
        g[5],
        "shifted_values"@,
        "[(x - lambda); for x in values]"@,
        n,
        "QM31"@,
        "sub"@,
        seq![],
        seq!["values"@, "log_up_random_shift"@],
    )
    &&& node_is(
        g[6],
        "inverse_shifted_values"@,
        "[(x - lambda)^-1; for x in values]"@,
        n,
        "QM31"@,
        "div"@,
        seq![],
        seq!["multiple_ones"@, "shifted_values"@],
    )
    &&& node_is(
        g[7],
        "partial_sums"@,
        "The partial sums of the shifted inverses of the values"@,
        (n + 1) as u64,
        "QM31"@,
        "concat"@,
        seq![],
        seq!["zero"@, "partial_sums_rec"@],
    )
    &&& node_is(
        g[8],
        "partial_sums0"@,
        "The partial sums of the shifted inverses of the values"@,
        n,
        "QM31"@,
        "slice"@,
        seq![int_p(0), int_p(n as int), int_p(1)],
        seq!["partial_sums"@],
    )
    &&& node_is(
        g[9],
        "partial_sums_rec"@,
        "The partial sums of the shifted inverses of the values"@,
        n,
        "QM31"@,
        "add"@,
        seq![],
        seq!["partial_sums0"@, "inverse_shifted_values"@],
    )
    &&& node_is(
        g[10],
        "sum"@,
        "The total sums of the shifted inverses of the values"@,
        1,
        "QM31"@,
        "slice"@,
        seq![int_p(n as int), int_p(n as int + 1), int_p(1)],
        seq!["partial_sums_rec"@],
    )
}

/// The constraint graph of the LogUp component over `n` values.
pub open spec fn logup_constraint_graph_is(g: Seq<GraphNode>, n: u64) -> bool {
    &&& g.len() == 11
    &&& node_is(
        g[0],
        "log_up_random_shift"@,
        "[lambda; n_bits]"@,
        n,
        "QM31"@,
        "repeat"@,
        seq![str_p("log_up_shift_element"@), int_p(1), int_p(n as int)],
        seq![],
    )
    &&& node_is(
        g[1],
        "shifted_values"@,
        "[(x - lambda); for x in values]"@,
        n,
        "QM31"@,
        "sub"@,
        seq![],
        seq!["values"@, "log_up_random_shift"@],
    )
    &&& node_is(
        g[2],
        "shifted_values0"@,
        "[x0 - lambda]"@,
        1,
        "QM31"@,
        "slice"@,
        seq![int_p(0), int_p(1), int_p(1)],
        seq!["shifted_values"@],
    )
    &&& node_is(
        g[3],
        "partial_sums"@,
        "C[0:N+1]"@,
        (n + 1) as u64,
        "QM31"@,
        "concat"@,
        seq![],
        seq!["zero"@, "partial_sums_rec"@],
    )
    &&& node_is(
        g[4],
        "partial_sums0"@,
        "C[0]"@,
        1,
        "QM31"@,
        "slice"@,
        seq![int_p(0), int_p(1), int_p(1)],
        seq!["partial_sums"@],
    )
    &&& node_is(
        g[5],
        "partial_sums_slice"@,
        "C[0:N]"@,
        n,
        "QM31"@,
        "slice"@,
        seq![int_p(0), int_p(n as int), int_p(1)],
        seq!["partial_sums"@],
    )
    &&& node_is(
        g[6],
        "partial_sums_consecutive_sub"@,
        "C_{i+1} - C_i"@,
        n,
        "QM31"@,
        "sub"@,
        seq![],
        seq!["partial_sums_rec"@, "partial_sums_slice"@],
    )
    &&& node_is(
        g[7],
        "consecutive_sub_mul_shifted_values"@,
        "(C_{i+1} - C_i) * (x - lambda)"@,
        n,
        "QM31"@,
        "mul"@,
        seq![],
        seq!["partial_sums_consecutive_sub"@, "shifted_values"@],
    )
    &&& node_is(
        g[8],
        "partial_sum_step"@,
        "((C_{i+1} - C_i) * (x - lambda)) - 1"@,
        n,
        "QM31"@,
        "sub"@,
        seq![],
        seq!["multiple_ones"@, "consecutive_sub_mul_shifted_values"@],
    )
    &&& node_is(
        g[9],
        "first_value_check1"@,
        "Check that the first value is correct"@,
        1,
        "QM31"@,
        "mul"@,
        seq![],
        seq!["partial_sums0"@, "shifted_values0"@],
    )
    &&& node_is(
        g[10],
        "first_value_check"@,
        "Check that the first value is correct"@,
        1,
        "QM31"@,
        "sub"@,
        seq![],
        seq!["first_value_check1"@, "one"@],
    )
}

/// The columns, outputs, constraints and interaction element of the LogUp component.
pub open spec fn logup_instance_rest_is(inst: ComponentInstance) -> bool {
    &&& inst.columns.len() == 2
    &&& inst.columns[0].name@ == "input values"@
    &&& inst.columns[0].description@ == "values"@
    &&& inst.columns[0].generation_node@ == "values"@
    &&& inst.columns[0].kind is Witness
    &&& inst.columns[1].name@ == "partial_sums_rec"@
    &&& inst.columns[1].description@ == "The partial sums of the shifted inverses of the input values"@
    &&& inst.columns[1].generation_node@ == "partial_sums_rec"@
    &&& inst.columns[1].kind is Witness
    &&& texts(inst.outputs@) == seq!["sum"@]
    &&& inst.constraints.len() == 2
    &&& inst.constraints[0].name@ == "first_value_check"@
    &&& inst.constraints[0].description@ == "Check that the first partial sum value is correct."@
    &&& inst.constraints[0].constraint_node@ == "first_value_check"@
    &&& inst.constraints[1].name@ == "partial_sum_step"@
    &&& inst.constraints[1].description@ == "Check that the partial sum values is correct."@
    &&& inst.constraints[1].constraint_node@ == "partial_sum_step"@
    &&& inst.interaction_elements.len() == 1
    &&& inst.interaction_elements[0].name@ == "log_up_shift_element"@
    &&& inst.interaction_elements[0].description@ == "Random element for shifting the logup"@
    &&& texts(inst.interaction_elements[0].witness_dependencies@) == seq!["values"@]
}

/// Builds the hand-written LogUp component over `2^n_bits` values: the running sums of
/// `1 / (x - lambda)` for a random shift `lambda`, checked step by step.
pub fn create_logup_component_definition(n_bits: u32) -> (r: Component)
    requires
        n_bits <= 62,
    ensures
        r.name@ == "LogUp"@,
        r.version@ == "0.1"@,
        r.description@ == "Hand written logup component"@,
        r.instances.len() == 1,
        r.instances[0].n_bits == n_bits,
        logup_generation_graph_is(r.instances[0].generation_graph@, 1u64 << n_bits),
        logup_constraint_graph_is(r.instances[0].constraint_graph@, 1u64 << n_bits),
        logup_instance_rest_is(r.instances[0]),
{
    let n: u64 = 1u64 << n_bits;
    assert(n_bits <= 62 ==> (1u64 << n_bits) <= 0x4000_0000_0000_0000u64) by (bit_vector);
    let ni: i64 = n as i64;
    let generation_graph = vec![
        node(
            "values",
            "Input values",
            n,
            "M31",
            "generation_input",
            vec![str_param("values")],
            vec![],
        ),
        node(
            "zero",
            "Zero value",
            1,
            "QM31",
            "constant",
            vec![OpParam::Int(0)],
            vec![],
        ),
        node(
            "one",
            "One value",
            1,
            "QM31",
            "constant",
            vec![OpParam::Int(1)],
            vec![],
        ),
        node(
            "multiple_ones",
            "[1; n_bits]",
            n,
            "QM31",
            "repeat",
            vec![str_param("one"), OpParam::Int(1), OpParam::Int(ni)],
            vec![],
        ),
        node(
            "log_up_random_shift",
            "[lambda; n_bits]",
            n,
            "QM31",
            "repeat",
            vec![str_param("log_up_shift_element"), OpParam::Int(1), OpParam::Int(ni)],
            vec![],
        ),
        node(
            "shifted_values",
            "[(x - lambda); for x in values]",
            n,
            "QM31",
            "sub",
            vec![],
            vec![text("values"), text("log_up_random_shift")],
        ),
        node(
            "inverse_shifted_values",
            "[(x - lambda)^-1; for x in values]",
            n,
            "QM31",
            "div",
            vec![],
            vec![text("multiple_ones"), text("shifted_values")],
        ),
        node(
            "partial_sums",
            "The partial sums of the shifted inverses of the values",
            n + 1,
            "QM31",
            "concat",
            vec![],
            vec![text("zero"), text("partial_sums_rec")],
        ),
        node(
            "partial_sums0",
            "The partial sums of the shifted inverses of the values",
            n,
            "QM31",
            "slice",
            vec![OpParam::Int(0), OpParam::Int(ni), OpParam::Int(1)],
            vec![text("partial_sums")],
        ),
        node(
            "partial_sums_rec",
            "The partial sums of the shifted inverses of the values",
            n,
            "QM31",
            "add",
            vec![],
            vec![text("partial_sums0"), text("inverse_shifted_values")],
        ),
        node(
            "sum",
            "The total sums of the shifted inverses of the values",
            1,
            "QM31",
            "slice",
            vec![OpParam::Int(ni), OpParam::Int(ni + 1), OpParam::Int(1)],
            vec![text("partial_sums_rec")],
        ),
    ];
    let columns = vec![
        Column {
            name: text("input values"),
            description: text("values"),
            generation_node: text("values"),
            kind: ColumnKind::Witness,
        },
        Column {
            name: text("partial_sums_rec"),
            description: text("The partial sums of the shifted inverses of the input values"),
            generation_node: text("partial_sums_rec"),
            kind: ColumnKind::Witness,
        },
    ];
    let constraint_graph = vec![
        node(
            "log_up_random_shift",
            "[lambda; n_bits]",
            n,
            "QM31",
            "repeat",
            vec![str_param("log_up_shift_element"), OpParam::Int(1), OpParam::Int(ni)],
            vec![],
        ),
        node(
            "shifted_values",
            "[(x - lambda); for x in values]",
            n,
            "QM31",
            "sub",
            vec![],
            vec![text("values"), text("log_up_random_shift")],
        ),
        node(
            "shifted_values0",
            "[x0 - lambda]",
            1,
            "QM31",
            "slice",
            vec![OpParam::Int(0), OpParam::Int(1), OpParam::Int(1)],
            vec![text("shifted_values")],
        ),
        node(
            "partial_sums",
            "C[0:N+1]",
            n + 1,
            "QM31",
            "concat",
            vec![],
            vec![text("zero"), text("partial_sums_rec")],
        ),
        node(
            "partial_sums0",
            "C[0]",
            1,
            "QM31",
            "slice",
            vec![OpParam::Int(0), OpParam::Int(1), OpParam::Int(1)],
            vec![text("partial_sums")],
        ),
        node(
            "partial_sums_slice",
            "C[0:N]",
            n,
            "QM31",
            "slice",
            vec![OpParam::Int(0), OpParam::Int(ni), OpParam::Int(1)],
            vec![text("partial_sums")],
        ),
        node(
            "partial_sums_consecutive_sub",
            "C_{i+1} - C_i",
            n,
            "QM31",
            "sub",
            vec![],
            vec![text("partial_sums_rec"), text("partial_sums_slice")],
        ),
        node(
            "consecutive_sub_mul_shifted_values",
            "(C_{i+1} - C_i) * (x - lambda)",
            n,
            "QM31",
            "mul",
            vec![],
            vec![text("partial_sums_consecutive_sub"), text("shifted_values")],
        ),
        node(
            "partial_sum_step",
            "((C_{i+1} - C_i) * (x - lambda)) - 1",
            n,
            "QM31",
            "sub",
            vec![],
            vec![text("multiple_ones"), text("consecutive_sub_mul_shifted_values")],
        ),
        node(
            "first_value_check1",
            "Check that the first value is correct",
            1,
            "QM31",
            "mul",
            vec![],
            vec![text("partial_sums0"), text("shifted_values0")],
        ),
        node(
            "first_value_check",
            "Check that the first value is correct",
            1,
            "QM31",
            "sub",
            vec![],
            vec![text("first_value_check1"), text("one")],
        ),
    ];
    let constraints = vec![
        Constraint {
            name: text("first_value_check"),
            description: text("Check that the first partial sum value is correct."),
            constraint_node: text("first_value_check"),
        },
        Constraint {
            name: text("partial_sum_step"),
            description: text("Check that the partial sum values is correct."),
            constraint_node: text("partial_sum_step"),
        },
    ];
    let interaction_elements = vec![
        InteractionElement {
            name: text("log_up_shift_element"),
            description: text("Random element for shifting the logup"),
            witness_dependencies: vec![text("values")],
        },
    ];
    let outputs = vec![text("sum")];
    proof {
        assert(texts(outputs@) =~= seq!["sum"@]);
        assert(texts(interaction_elements[0].witness_dependencies@) =~= seq!["values"@]);
        assert(param_views(generation_graph[0].params@) =~= seq![str_p("values"@)]);
        assert(texts(generation_graph[0].inputs@) =~= seq![]);
        assert(param_views(generation_graph[1].params@) =~= seq![int_p(0)]);
        assert(texts(generation_graph[1].inputs@) =~= seq![]);
        assert(param_views(generation_graph[2].params@) =~= seq![int_p(1)]);
        assert(texts(generation_graph[2].inputs@) =~= seq![]);
        assert(param_views(generation_graph[3].params@) =~= seq![str_p("one"@), int_p(1), int_p(n as int)]);
        assert(texts(generation_graph[3].inputs@) =~= seq![]);
        assert(param_views(generation_graph[4].params@) =~= seq![str_p("log_up_shift_element"@), int_p(1), int_p(n as int)]);
        assert(texts(generation_graph[4].inputs@) =~= seq![]);
        assert(param_views(generation_graph[5].params@) =~= seq![]);
        assert(texts(generation_graph[5].inputs@) =~= seq!["values"@, "log_up_random_shift"@]);
        assert(param_views(generation_graph[6].params@) =~= seq![]);
        assert(texts(generation_graph[6].inputs@) =~= seq!["multiple_ones"@, "shifted_values"@]);
        assert(param_views(generation_graph[7].params@) =~= seq![]);
        assert(texts(generation_graph[7].inputs@) =~= seq!["zero"@, "partial_sums_rec"@]);
        assert(param_views(generation_graph[8].params@) =~= seq![int_p(0), int_p(n as int), int_p(1)]);
        assert(texts(generation_graph[8].inputs@) =~= seq!["partial_sums"@]);
        assert(param_views(generation_graph[9].params@) =~= seq![]);
        assert(texts(generation_graph[9].inputs@) =~= seq!["partial_sums0"@, "inverse_shifted_values"@]);
        assert(param_views(generation_graph[10].params@) =~= seq![int_p(n as int), int_p(n as int + 1), int_p(1)]);
        assert(texts(generation_graph[10].inputs@) =~= seq!["partial_sums_rec"@]);
        assert(param_views(constraint_graph[0].params@) =~= seq![str_p("log_up_shift_element"@), int_p(1), int_p(n as int)]);
        assert(texts(constraint_graph[0].inputs@) =~= seq![]);
        assert(param_views(constraint_graph[1].params@) =~= seq![]);
        assert(texts(constraint_graph[1].inputs@) =~= seq!["values"@, "log_up_random_shift"@]);
        assert(param_views(constraint_graph[2].params@) =~= seq![int_p(0), int_p(1), int_p(1)]);
        assert(texts(constraint_graph[2].inputs@) =~= seq!["shifted_values"@]);
        assert(param_views(constraint_graph[3].params@) =~= seq![]);
        assert(texts(constraint_graph[3].inputs@) =~= seq!["zero"@, "partial_sums_rec"@]);
        assert(param_views(constraint_graph[4].params@) =~= seq![int_p(0), int_p(1), int_p(1)]);
        assert(texts(constraint_graph[4].inputs@) =~= seq!["partial_sums"@]);
        assert(param_views(constraint_graph[5].params@) =~= seq![int_p(0), int_p(n as int), int_p(1)]);
        assert(texts(constraint_graph[5].inputs@) =~= seq!["partial_sums"@]);
        assert(param_views(constraint_graph[6].params@) =~= seq![]);
        assert(texts(constraint_graph[6].inputs@) =~= seq!["partial_sums_rec"@, "partial_sums_slice"@]);
        assert(param_views(constraint_graph[7].params@) =~= seq![]);
        assert(texts(constraint_graph[7].inputs@) =~= seq!["partial_sums_consecutive_sub"@, "shifted_values"@]);
        assert(param_views(constraint_graph[8].params@) =~= seq![]);
        assert(texts(constraint_graph[8].inputs@) =~= seq!["multiple_ones"@, "consecutive_sub_mul_shifted_values"@]);
        assert(param_views(constraint_graph[9].params@) =~= seq![]);
        assert(texts(constraint_graph[9].inputs@) =~= seq!["partial_sums0"@, "shifted_values0"@]);
        assert(param_views(constraint_graph[10].params@) =~= seq![]);
        assert(texts(constraint_graph[10].inputs@) =~= seq!["first_value_check1"@, "one"@]);
    }
    Component {
        name: text("LogUp"),
        version: text("0.1"),
        description: text("Hand written logup component"),
        instances: vec![
            ComponentInstance {
                n_bits,
                generation_graph,
                columns,
                outputs,
                constraint_graph,
                constraints,
                interaction_elements,
            },
        ],
    }
}

} // verus!
