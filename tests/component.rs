use stwo::accumulation::{allocate, generate_powers, DomainEvaluationAccumulator, PointEvaluationAccumulator};
use stwo::definition::{ColumnKind, OpParam};
use stwo::domain::{bit_reverse_index_of, constraint_denominators, CircleDomain};
use stwo::logup_component::create_logup_component_definition;
use stwo::m31::{M31, P};
use stwo::wide_fib::{gen_trace, write_trace_row, EvalError, WideFibComponent};

fn m(v: u32) -> M31 {
    M31::from_u32_unchecked(v)
}

fn pow(r: u64, e: u32) -> u32 {
    let mut acc: u64 = 1;
    for _ in 0..e {
        acc = acc * r % (P as u64);
    }
    acc as u32
}

#[test]
fn powers_are_ascending() {
    let v = generate_powers(m(3), 5);
    let got: Vec<u32> = v.iter().map(|x| x.value).collect();
    assert_eq!(got, vec![1, 3, 9, 27, 81]);
}

#[test]
fn assigned_powers_descend() {
    for n in [1usize, 4, 15] {
        let acc = DomainEvaluationAccumulator::new(m(7), 3, n);
        for k in 0..n {
            assert_eq!(acc.assigned_power(k).value, pow(7, (n - 1 - k) as u32));
        }
    }
}

#[test]
fn combine_weights_by_assigned_power() {
    let acc = DomainEvaluationAccumulator::new(m(10), 2, 3);
    let r = acc.combine(&vec![m(1), m(2), m(3)]);
    assert_eq!(r.value, 123);
    assert_eq!(acc.col.len(), 4);
}

#[test]
fn point_accumulator_combines_in_order() {
    let mut acc = PointEvaluationAccumulator::new(m(10));
    acc.accumulate(m(1));
    acc.accumulate(m(2));
    acc.accumulate(m(3));
    assert_eq!(acc.finalize().value, 123);
}

fn domain_run(challenge: u32) -> Vec<M31> {
    let component = WideFibComponent { log_n_rows: 4, n_columns: 16 };
    let evals = gen_trace(5, 16);
    let denoms = constraint_denominators(4);
    let mut acc = DomainEvaluationAccumulator::new(m(challenge), 5, component.n_constraints());
    // A trace that does not meet its constraints everywhere, so that the values depend on the
    // challenge.
    let mut evals = evals;
    for r in 0..32 {
        evals[5][r] = m(r as u32 + 11);
    }
    component.evaluate_constraint_quotients_on_domain(&evals, &denoms, &mut acc);
    acc.col
}

#[test]
fn domain_accumulation_is_deterministic() {
    assert_eq!(domain_run(12345), domain_run(12345));
    assert_ne!(domain_run(12345), domain_run(54321));
}

#[test]
fn domain_and_point_paths_agree() {
    let component = WideFibComponent { log_n_rows: 4, n_columns: 16 };
    let mut evals = gen_trace(5, 16);
    evals[7][9] = m(99);
    evals[0][9] = m(5);
    let denoms = constraint_denominators(4);
    let domain = CircleDomain::canonic(5);
    let challenge = m(987654);
    let mut dacc = DomainEvaluationAccumulator::new(challenge, 5, component.n_constraints());
    component.evaluate_constraint_quotients_on_domain(&evals, &denoms, &mut dacc);
    for row in 0..32 {
        let mask: Vec<Vec<M31>> = (0..16).map(|c| vec![evals[c][row]]).collect();
        let point = domain.at(bit_reverse_index_of(row as u64, 5) as u32);
        let mut pacc = PointEvaluationAccumulator::new(challenge);
        component.evaluate_constraint_quotients_at_point(point, &mask, &mut pacc);
        assert_eq!(pacc.finalize(), dacc.col[row]);
        // Direct evaluation of the numerators over the denominator.
        let cells: Vec<u64> = (0..16).map(|c| evals[c][row].value as u64).collect();
        let p = P as u64;
        let mut expected: u64 = (cells[0] + p - 1) % p;
        for i in 0..14 {
            let num = (cells[i] * cells[i] % p + cells[i + 1] * cells[i + 1] % p + p - cells[i + 2]) % p;
            expected = (expected * challenge.value as u64 + num) % p;
        }
        let inv = denoms[row].inverse().value as u64;
        assert_eq!(dacc.col[row].value as u64, expected * inv % p);
    }
    assert_ne!(dacc.col[9].value, 0);
    assert_eq!(dacc.col[10].value, 0);
}

#[test]
fn write_trace_row_fills_one_row() {
    let mut dst: Vec<Vec<M31>> = vec![vec![m(7); 4]; 6];
    let (x, y) = write_trace_row(&mut dst, m(1), m(2), 2);
    let expected = [1u64, 2, 5, 29, 866, 750797];
    for c in 0..6 {
        assert_eq!(dst[c][2].value as u64, expected[c]);
        for r in [0usize, 1, 3] {
            assert_eq!(dst[c][r].value, 7);
        }
    }
    assert_eq!((x.value, y.value), (866, 750797));
}

#[test]
fn allocate_gives_one_bucket_per_request() {
    let buckets = allocate(m(5), &vec![(2u32, 3usize), (4, 1), (0, 0)]);
    assert_eq!(buckets.len(), 3);
    assert_eq!(buckets[0].col.len(), 4);
    assert_eq!(buckets[1].col.len(), 16);
    assert_eq!(buckets[2].col.len(), 1);
    assert_eq!(buckets[0].assigned_power(0).value, 25);
    assert_eq!(buckets[1].assigned_power(0).value, 1);
    assert!(buckets.iter().all(|b| b.random_coeff == m(5) && b.col.iter().all(|v| v.value == 0)));
}

#[test]
fn component_shape() {
    let component = WideFibComponent { log_n_rows: 4, n_columns: 16 };
    assert_eq!(component.n_constraints(), 15);
    assert_eq!(component.max_constraint_log_degree_bound(), 5);
    assert_eq!(component.trace_log_degree_bounds(), vec![4u32; 16]);
    let p = stwo::circle::index_to_point(12345);
    assert_eq!(component.mask_points(p), vec![vec![p]; 16]);
    assert_eq!(component.log_column_size(), 4);
}

#[test]
fn wide_fib_end_to_end() {
    let component = WideFibComponent { log_n_rows: 4, n_columns: 16 };
    let trace = gen_trace(4, 16);
    assert_eq!(trace.len(), 16);
    let (a, b) = (1u64, 0u64);
    assert_eq!(trace[0][0].value, 1);
    assert_eq!(trace[1][0].value, 0);
    assert_eq!(trace[2][0].value as u64, a * a + b * b);
    for r in 0..16usize {
        assert_eq!(trace[2][r].value as u64, 1 + (r as u64) * (r as u64));
    }
    assert!(component.check_trace(&trace, 16));
    for c in 0..16 {
        for r in [0usize, 7, 15] {
            let mut bad = trace.clone();
            bad[c][r] = bad[c][r].add(M31::one());
            assert!(!component.check_trace(&bad, 16), "cell {} {}", c, r);
        }
    }
}

#[test]
fn trace_restarts_in_each_chunk() {
    let trace = gen_trace(5, 4);
    for chunk_base in [0usize, 16] {
        let b = chunk_base as u64;
        assert_eq!(trace[2][chunk_base].value as u64, 1 + b * b);
    }
    for r in 0..32usize {
        let b = r as u64;
        let c2 = (1 + b * b) % (P as u64);
        let c3 = (b * b + c2 * c2) % (P as u64);
        assert_eq!(trace[0][r].value, 1);
        assert_eq!(trace[1][r].value as u64, b);
        assert_eq!(trace[2][r].value as u64, c2);
        assert_eq!(trace[3][r].value as u64, c3);
    }
}

#[test]
fn logup_definition() {
    let c = create_logup_component_definition(3);
    let big = create_logup_component_definition(62);
    assert_eq!(big.instances[0].generation_graph[7].size, (1u64 << 62) + 1);
    assert!(matches!(&big.instances[0].generation_graph[10].params[1], OpParam::Int(v) if *v == (1i64 << 62) + 1));
    let g = &c.instances[0].generation_graph;
    assert!(matches!(&g[0].params[0], OpParam::String(s) if s == "values"));
    assert_eq!(g[0].ty, "M31");
    assert!(g.iter().skip(1).all(|n| n.ty == "QM31"));
    assert!(matches!(&g[3].params[2], OpParam::Int(8)));
    assert!(matches!(&g[8].params[..], [OpParam::Int(0), OpParam::Int(8), OpParam::Int(1)]));
    let cg = &c.instances[0].constraint_graph;
    assert!(matches!(&cg[5].params[..], [OpParam::Int(0), OpParam::Int(8), OpParam::Int(1)]));
    assert_eq!(c.instances[0].columns[0].name, "input values");
    assert_eq!(c.instances[0].constraints[0].name, "first_value_check");
    assert_eq!(c.name, "LogUp");
    assert_eq!(c.version, "0.1");
    assert_eq!(c.description, "Hand written logup component");
    assert_eq!(c.instances.len(), 1);
    let inst = &c.instances[0];
    assert_eq!(inst.n_bits, 3);
    assert_eq!(inst.generation_graph.len(), 11);
    assert_eq!(inst.constraint_graph.len(), 11);
    assert_eq!(inst.generation_graph[7].name, "partial_sums");
    assert_eq!(inst.generation_graph[7].size, 9);
    assert_eq!(inst.generation_graph[0].size, 8);
    assert_eq!(inst.generation_graph[1].size, 1);
    assert!(matches!(&inst.generation_graph[10].params[1], OpParam::Int(9)));
    assert!(matches!(&inst.generation_graph[3].params[0], OpParam::String(s) if s == "one"));
    assert_eq!(inst.columns.len(), 2);
    assert!(matches!(inst.columns[1].kind, ColumnKind::Witness));
    assert_eq!(inst.outputs, vec!["sum".to_string()]);
    assert_eq!(inst.constraints[1].constraint_node, "partial_sum_step");
    assert_eq!(inst.interaction_elements[0].name, "log_up_shift_element");
    assert_eq!(inst.constraint_graph[10].inputs, vec!["first_value_check1".to_string(), "one".to_string()]);
}

#[test]
fn canonic_domain_path_matches_given_denominators() {
    let component = WideFibComponent { log_n_rows: 4, n_columns: 16 };
    let mut evals = gen_trace(5, 16);
    evals[3][4] = m(77);
    let challenge = m(31337);
    let mut a = DomainEvaluationAccumulator::new(challenge, 5, 15);
    assert_eq!(component.evaluate_on_canonic_domain(&evals, &mut a), Ok(()));
    let mut b = DomainEvaluationAccumulator::new(challenge, 5, 15);
    component.evaluate_constraint_quotients_on_domain(&evals, &constraint_denominators(4), &mut b);
    assert_eq!(a.col, b.col);
    assert_ne!(a.col[4].value, 0);
    assert_eq!(a.col[5].value, 0);
}

#[test]
fn satisfied_trace_adds_nothing() {
    let component = WideFibComponent { log_n_rows: 4, n_columns: 16 };
    let evals = gen_trace(5, 16);
    let mut acc = DomainEvaluationAccumulator::new(m(99), 5, 15);
    assert_eq!(component.evaluate_on_canonic_domain(&evals, &mut acc), Ok(()));
    assert!(acc.col.iter().all(|v| v.value == 0));
}

#[test]
fn canonic_domain_path_rejects_wrong_shapes() {
    let component = WideFibComponent { log_n_rows: 4, n_columns: 16 };
    let evals = gen_trace(5, 15);
    let mut acc = DomainEvaluationAccumulator::new(m(2), 5, 15);
    assert_eq!(component.evaluate_on_canonic_domain(&evals, &mut acc), Err(EvalError::ShapeMismatch));
    let short = gen_trace(4, 16);
    assert_eq!(component.evaluate_on_canonic_domain(&short, &mut acc), Err(EvalError::ShapeMismatch));
    let evals = gen_trace(5, 16);
    let mut wrong_size = DomainEvaluationAccumulator::new(m(2), 4, 15);
    assert_eq!(component.evaluate_on_canonic_domain(&evals, &mut wrong_size), Err(EvalError::ShapeMismatch));
    assert!(wrong_size.col.iter().all(|v| v.value == 0));
    let mut wrong_count = DomainEvaluationAccumulator::new(m(2), 5, 14);
    assert_eq!(component.evaluate_on_canonic_domain(&evals, &mut wrong_count), Err(EvalError::ShapeMismatch));
}
