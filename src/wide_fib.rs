use vstd::prelude::*;
use crate::accumulation::{horner, lemma_horner_scaled, lemma_power_sum_is_horner, power_sum, DomainEvaluationAccumulator, PointEvaluationAccumulator};
use crate::circle::{canonic_coset, coset_vanishing, vanishing, CirclePoint, Coset};
use crate::column::{all_nonzero, batch_inverse, check_all_nonzero};
use crate::domain::{bit_reverse_index, constraint_denominator, constraint_denominators, CircleDomain};
use crate::circle::index_point;
use vstd::arithmetic::power2::pow2;
use crate::m31::{fadd, finv, fmul, fsub, M31, P};

verus! {

/// The log of the number of lanes of a packed chunk of rows.
pub const VECS_LOG_SIZE: u32 = 4;

/// The cells `c` and `c + 1` of a row whose first two cells are `a` and `b`, and whose
/// every further cell is the sum of the squares of the two before it.
pub open spec fn fib_pair(a: int, b: int, c: nat) -> (int, int)
    decreases c,
{
    if c == 0 {
        (a, b)
    } else {
        let (x, y) = fib_pair(a, b, (c - 1) as nat);
        (y, fadd(fmul(x, x), fmul(y, y)))
    }
}

/// The cell `c` of the row seeded with `a` and `b`.
pub open spec fn fib_cell(a: int, b: int, c: nat) -> int {
    fib_pair(a, b, c).0
}

proof fn lemma_fib_step(a: int, b: int, c: nat)
    requires
        c >= 2,
    ensures
        fib_cell(a, b, c) == fadd(
            fmul(fib_cell(a, b, (c - 2) as nat), fib_cell(a, b, (c - 2) as nat)),
            fmul(fib_cell(a, b, (c - 1) as nat), fib_cell(a, b, (c - 1) as nat)),
        ),
{
    assert(fib_pair(a, b, (c - 1) as nat).0 == fib_pair(a, b, (c - 2) as nat).1);
}

/// The constraint values of one row: the first cell minus one, then for each `i` the
/// squares of cells `i` and `i + 1` minus cell `i + 2`.
pub open spec fn constraint_numerators(row: Seq<int>) -> Seq<int> {
    Seq::new(
        (row.len() - 1) as nat,
        |k: int|
            if k == 0 {
                fsub(row[0], 1)
            } else {
                fsub(fadd(fmul(row[k - 1], row[k - 1]), fmul(row[k], row[k])), row[k + 1])
            },
    )
}

/// The values of `s` as integers.
pub open spec fn vals(s: Seq<M31>) -> Seq<int> {
    s.map_values(|v: M31| v.val())
}

/// The row `r` of a trace held as columns.
pub open spec fn row_at(trace: Seq<Vec<M31>>, r: int) -> Seq<int> {
    Seq::new(trace.len(), |c: int| trace[c][r].val())
}

/// Each value multiplied by `y`.
pub open spec fn scaled(v: Seq<int>, y: int) -> Seq<int> {
    v.map_values(|x: int| fmul(x, y))
}

/// The constraint values of a row, as `constraint_numerators` gives them.
pub fn row_numerators(row: &Vec<M31>) -> (r: Vec<M31>)
    requires
        row.len() >= 2,
        forall|i: int| 0 <= i < row.len() ==> (#[trigger] row[i]).wf(),
    ensures
        r.len() == row.len() - 1,
        forall|i: int| 0 <= i < r.len() ==> (#[trigger] r[i]).wf(),
        vals(r@) == constraint_numerators(vals(row@)),
{
    let n = row.len();
    let mut r: Vec<M31> = Vec::new();
    r.push(row[0].sub(M31::one()));
    let mut a_sq = row[0].square();
    let mut b_sq = row[1].square();
    let mut i: usize = 0;
    while i < n - 2
        invariant
            n == row.len(),
            n >= 2,
            i <= n - 2,
            r.len() == i + 1,
            forall|j: int| 0 <= j < row.len() ==> (#[trigger] row[j]).wf(),
            forall|j: int| 0 <= j < r.len() ==> (#[trigger] r[j]).wf(),
            forall|j: int|
                0 <= j < r.len() ==> (#[trigger] r[j]).val() == constraint_numerators(vals(row@))[j],
            a_sq.wf(),
            b_sq.wf(),
            a_sq.val() == fmul(row[i as int].val(), row[i as int].val()),
            b_sq.val() == fmul(row[i + 1].val(), row[i + 1].val()),
        decreases n - 2 - i,
    {
        let c = row[i + 2];
        r.push(a_sq.add(b_sq).sub(c));
        a_sq = b_sq;
        b_sq = c.square();
        i = i + 1;
    }
    assert(vals(r@) =~= constraint_numerators(vals(row@)));
    r
}

/// The row `r` of a trace held as columns.
pub fn gather_row(trace: &Vec<Vec<M31>>, r: usize) -> (row: Vec<M31>)
    requires
        forall|c: int| 0 <= c < trace.len() ==> r < (#[trigger] trace[c]).len(),
        forall|c: int, j: int| 0 <= c < trace.len() && 0 <= j < trace[c].len() ==> (#[trigger] trace[c][j]).wf(),
    ensures
        row.len() == trace.len(),
        forall|i: int| 0 <= i < row.len() ==> (#[trigger] row[i]).wf(),
        vals(row@) == row_at(trace@, r as int),
{
    let mut row: Vec<M31> = Vec::new();
    let mut c: usize = 0;
    while c < trace.len()
        invariant
            c <= trace.len(),
            row.len() == c,
            forall|c: int| 0 <= c < trace.len() ==> r < (#[trigger] trace[c]).len(),
            forall|c: int, j: int| 0 <= c < trace.len() && 0 <= j < trace[c].len() ==> (#[trigger] trace[c][j]).wf(),
            forall|i: int| 0 <= i < row.len() ==> (#[trigger] row[i]).wf() && row[i].val() == trace[i][r as int].val(),
        decreases trace.len() - c,
    {
        row.push(trace[c][r]);
        c = c + 1;
    }
    assert(vals(row@) =~= row_at(trace@, r as int));
    row
}

/// Why the domain path refused to run.
#[derive(Clone, Copy, Debug, PartialEq, Eq)]
pub enum EvalError {
    /// The trace or the accumulator does not have the component's shape.
    ShapeMismatch,
    /// The vanishing denominator is zero at a point of the evaluation domain.
    ZeroDenominator,
}

/// The wide Fibonacci component: each row holds `n_columns` cells, each past the second the
/// sum of the squares of the two before it, over `2^log_n_rows` rows.
pub struct WideFibComponent {
    pub log_n_rows: u32,
    pub n_columns: usize,
}

impl WideFibComponent {
    pub open spec fn wf(&self) -> bool {
        &&& 2 <= self.n_columns
        &&& VECS_LOG_SIZE <= self.log_n_rows < 30
    }

    pub fn log_column_size(&self) -> (r: u32)
        ensures
            r == self.log_n_rows,
    {
        self.log_n_rows
    }

    /// One boundary constraint and one per cell past the second.
    pub fn n_constraints(&self) -> (r: usize)
        requires
            self.wf(),
        ensures
            r == self.n_columns - 1,
    {
        self.n_columns - 1
    }

    /// The constraints are evaluated on a domain twice the trace's size.
    pub fn max_constraint_log_degree_bound(&self) -> (r: u32)
        requires
            self.wf(),
        ensures
            r == self.log_n_rows + 1,
    {
        self.log_n_rows + 1
    }

    pub fn trace_log_degree_bounds(&self) -> (r: Vec<u32>)
        ensures
            r.len() == self.n_columns,
            forall|i: int| 0 <= i < r.len() ==> r[i] == self.log_n_rows,
    {
        let mut r: Vec<u32> = Vec::new();
        while r.len() < self.n_columns
            invariant
                r.len() <= self.n_columns,
                forall|i: int| 0 <= i < r.len() ==> r[i] == self.log_n_rows,
            decreases self.n_columns - r.len(),
        {
            r.push(self.log_n_rows);
        }
        r
    }

    /// The points at which each column is opened: every column at `point` itself, the current
    /// row, since the three cells of a constraint stand in one row.
    pub fn mask_points(&self, point: CirclePoint) -> (r: Vec<Vec<CirclePoint>>)
        ensures
            r.len() == self.n_columns,
            forall|i: int| 0 <= i < r.len() ==> (#[trigger] r[i])@ == seq![point],
    {
        let mut r: Vec<Vec<CirclePoint>> = Vec::new();
        while r.len() < self.n_columns
            invariant
                r.len() <= self.n_columns,
                forall|i: int| 0 <= i < r.len() ==> (#[trigger] r[i])@ == seq![point],
            decreases self.n_columns - r.len(),
        {
            r.push(vec![point]);
        }
        r
    }

    /// Adds, at each row of the evaluation domain, the constraint values weighted by their
    /// assigned powers and divided by the row's vanishing denominator. The denominators
    /// are inverted all at once.
    pub fn evaluate_constraint_quotients_on_domain(
        &self,
        trace_evals: &Vec<Vec<M31>>,
        denoms: &Vec<M31>,
        acc: &mut DomainEvaluationAccumulator,
    )
        requires
            self.wf(),
            trace_evals.len() == self.n_columns,
            forall|c: int| 0 <= c < trace_evals.len() ==> (#[trigger] trace_evals[c]).len() == denoms.len(),
            forall|c: int, j: int|
                0 <= c < trace_evals.len() && 0 <= j < trace_evals[c].len() ==> (#[trigger] trace_evals[c][j]).wf(),
            forall|j: int| 0 <= j < denoms.len() ==> (#[trigger] denoms[j]).wf(),
            all_nonzero(denoms@),
            old(acc).wf(),
            old(acc).log_size == self.log_n_rows + 1,
            old(acc).n_constraints == self.n_columns - 1,
            old(acc).col.len() == denoms.len(),
        ensures
            final(acc).wf(),
            final(acc).random_coeff == old(acc).random_coeff,
            final(acc).log_size == old(acc).log_size,
            final(acc).n_constraints == old(acc).n_constraints,
            final(acc).col.len() == old(acc).col.len(),
            forall|j: int|
                0 <= j < denoms.len() ==> (#[trigger] final(acc).col[j]).val() == fadd(
                    old(acc).col[j].val(),
                    fmul(
                        power_sum(
                            old(acc).random_coeff.val(),
                            constraint_numerators(row_at(trace_evals@, j)),
                            (self.n_columns - 1) as nat,
                            (self.n_columns - 1) as nat,
                        ),
                        finv(denoms[j].val()),
                    ),
                ),
    {
        let n = denoms.len();
        let mut inverses: Vec<M31> = Vec::new();
        while inverses.len() < n
            invariant
                inverses.len() <= n,
            decreases n - inverses.len(),
        {
            inverses.push(M31::zero());
        }
        batch_inverse(denoms, &mut inverses);
        let ghost old_col = acc.col@;
        let mut j: usize = 0;
        while j < n
            invariant
                self.wf(),
                n == denoms.len(),
                j <= n,
                trace_evals.len() == self.n_columns,
                forall|c: int| 0 <= c < trace_evals.len() ==> (#[trigger] trace_evals[c]).len() == denoms.len(),
                forall|c: int, i: int|
                    0 <= c < trace_evals.len() && 0 <= i < trace_evals[c].len() ==> (#[trigger] trace_evals[c][i]).wf(),
                inverses.len() == n,
                forall|i: int| 0 <= i < n ==> (#[trigger] inverses[i]).wf() && inverses[i].val() == finv(denoms[i].val()),
                acc.wf(),
                acc.random_coeff == old(acc).random_coeff,
                acc.log_size == old(acc).log_size,
                acc.n_constraints == old(acc).n_constraints,
                acc.n_constraints == self.n_columns - 1,
                acc.col.len() == n,
                old_col == old(acc).col@,
                forall|i: int| j <= i < n ==> acc.col[i] == old_col[i],
                forall|i: int|
                    0 <= i < j ==> (#[trigger] acc.col[i]).val() == fadd(
                        old_col[i].val(),
                        fmul(
                            power_sum(
                                old(acc).random_coeff.val(),
                                constraint_numerators(row_at(trace_evals@, i)),
                                (self.n_columns - 1) as nat,
                                (self.n_columns - 1) as nat,
                            ),
                            finv(denoms[i].val()),
                        ),
                    ),
            decreases n - j,
        {
            let row = gather_row(trace_evals, j);
            let nums = row_numerators(&row);
            let row_res = acc.combine(&nums);
            acc.add_at(j, row_res.mul(inverses[j]));
            j = j + 1;
        }
    }

    /// Whether every constraint value of every row of `trace` is zero.
    pub fn check_trace(&self, trace: &Vec<Vec<M31>>, n_rows: usize) -> (ok: bool)
        requires
            self.wf(),
            trace.len() == self.n_columns,
            forall|c: int| 0 <= c < trace.len() ==> (#[trigger] trace[c]).len() == n_rows,
            forall|c: int, j: int|
                0 <= c < trace.len() && 0 <= j < trace[c].len() ==> (#[trigger] trace[c][j]).wf(),
        ensures
            ok == forall|r: int, k: int|
                0 <= r < n_rows && 0 <= k < self.n_columns - 1 ==> #[trigger] constraint_numerators(
                    row_at(trace@, r),
                )[k] == 0,
    {
        let mut r: usize = 0;
        while r < n_rows
            invariant
                self.wf(),
                r <= n_rows,
                trace.len() == self.n_columns,
                forall|c: int| 0 <= c < trace.len() ==> (#[trigger] trace[c]).len() == n_rows,
                forall|c: int, j: int|
                    0 <= c < trace.len() && 0 <= j < trace[c].len() ==> (#[trigger] trace[c][j]).wf(),
                forall|i: int, k: int|
                    0 <= i < r && 0 <= k < self.n_columns - 1 ==> #[trigger] constraint_numerators(
                        row_at(trace@, i),
                    )[k] == 0,
            decreases n_rows - r,
        {
            let row = gather_row(trace, r);
            let nums = row_numerators(&row);
            let mut k: usize = 0;
            while k < nums.len()
                invariant
                    r < n_rows,
                    k <= nums.len(),
                    nums.len() == self.n_columns - 1,
                    vals(nums@) == constraint_numerators(row_at(trace@, r as int)),
                    forall|i: int| 0 <= i < k ==> constraint_numerators(row_at(trace@, r as int))[i] == 0,
                decreases nums.len() - k,
            {
                if nums[k].value != 0 {
                    assert(vals(nums@)[k as int] == nums[k as int].val());
                    assert(constraint_numerators(row_at(trace@, r as int))[k as int] != 0);
                    assert(!(forall|i: int, j: int|
                        0 <= i < n_rows && 0 <= j < self.n_columns - 1 ==> #[trigger] constraint_numerators(
                            row_at(trace@, i),
                        )[j] == 0));
                    return false;
                }
                k = k + 1;
            }
            r = r + 1;
        }
        true
    }

    /// The trace and the accumulator have the shape that the domain path over the canonic
    /// evaluation domain needs.
    pub open spec fn domain_shape_ok(&self, trace_evals: Seq<Vec<M31>>, acc: DomainEvaluationAccumulator) -> bool {
        &&& trace_evals.len() == self.n_columns
        &&& forall|c: int|
            0 <= c < trace_evals.len() ==> (#[trigger] trace_evals[c]).len() == pow2((self.log_n_rows + 1) as nat)
        &&& acc.log_size == self.log_n_rows + 1
        &&& acc.n_constraints == self.n_columns - 1
        &&& acc.col.len() == pow2((self.log_n_rows + 1) as nat)
    }

    /// The domain path over the canonic evaluation domain of twice the trace's size, with the
    /// vanishing denominators computed here. It refuses, leaving the accumulator as it was, a
    /// trace or an accumulator of the wrong shape and a domain on which a denominator vanishes.
    pub fn evaluate_on_canonic_domain(
        &self,
        trace_evals: &Vec<Vec<M31>>,
        acc: &mut DomainEvaluationAccumulator,
    ) -> (res: Result<(), EvalError>)
        requires
            self.wf(),
            self.log_n_rows < 29,
            forall|c: int, j: int|
                0 <= c < trace_evals.len() && 0 <= j < trace_evals[c].len() ==> (#[trigger] trace_evals[c][j]).wf(),
            old(acc).wf(),
        ensures
            !self.domain_shape_ok(trace_evals@, *old(acc)) ==> res == Err::<(), EvalError>(EvalError::ShapeMismatch),
            self.domain_shape_ok(trace_evals@, *old(acc)) && !(forall|j: int|
                0 <= j < pow2((self.log_n_rows + 1) as nat) ==> #[trigger] constraint_denominator(
                    self.log_n_rows,
                    j,
                ) != 0) ==> res == Err::<(), EvalError>(EvalError::ZeroDenominator),
            res is Err ==> *final(acc) == *old(acc),
            res is Ok ==> {
                &&& final(acc).wf()
                &&& final(acc).random_coeff == old(acc).random_coeff
                &&& final(acc).col.len() == old(acc).col.len()
                &&& forall|j: int|
                    0 <= j < final(acc).col.len() ==> (#[trigger] final(acc).col[j]).val() == fadd(
                        old(acc).col[j].val(),
                        fmul(
                            power_sum(
                                old(acc).random_coeff.val(),
                                constraint_numerators(row_at(trace_evals@, j)),
                                (self.n_columns - 1) as nat,
                                (self.n_columns - 1) as nat,
                            ),
                            finv(constraint_denominator(self.log_n_rows, j)),
                        ),
                    )
            },
            res is Ok <==> self.domain_shape_ok(trace_evals@, *old(acc)) && forall|j: int|
                0 <= j < pow2((self.log_n_rows + 1) as nat) ==> #[trigger] constraint_denominator(
                    self.log_n_rows,
                    j,
                ) != 0,
    {
        let denoms = constraint_denominators(self.log_n_rows);
        if trace_evals.len() != self.n_columns || acc.log_size != self.log_n_rows + 1
            || acc.n_constraints != self.n_columns - 1 || acc.col.len() != denoms.len() {
            return Err(EvalError::ShapeMismatch);
        }
        let mut c: usize = 0;
        while c < trace_evals.len()
            invariant
                c <= trace_evals.len(),
                denoms.len() == pow2((self.log_n_rows + 1) as nat),
                forall|i: int| 0 <= i < c ==> (#[trigger] trace_evals[i]).len() == denoms.len(),
            decreases trace_evals.len() - c,
        {
            if trace_evals[c].len() != denoms.len() {
                return Err(EvalError::ShapeMismatch);
            }
            c = c + 1;
        }
        if !check_all_nonzero(&denoms) {
            proof {
                let j = choose|j: int| 0 <= j < denoms.len() && #[trigger] denoms@[j].val() == 0;
                assert(constraint_denominator(self.log_n_rows, j) == 0);
            }
            return Err(EvalError::ZeroDenominator);
        }
        proof {
            assert forall|j: int| 0 <= j < pow2((self.log_n_rows + 1) as nat) implies #[trigger] constraint_denominator(
                self.log_n_rows,
                j,
            ) != 0 by {
                assert(denoms@[j].val() != 0);
            }
        }
        self.evaluate_constraint_quotients_on_domain(trace_evals, &denoms, acc);
        Ok(())
    }

    /// The point counterpart: accumulates each constraint value of the mask's row divided by
    /// the vanishing polynomial of the trace's canonic coset at `point`, in constraint order.
    pub fn evaluate_constraint_quotients_at_point(
        &self,
        point: CirclePoint,
        mask: &Vec<Vec<M31>>,
        acc: &mut PointEvaluationAccumulator,
    )
        requires
            self.wf(),
            point.wf(),
            mask.len() == self.n_columns,
            forall|c: int| 0 <= c < mask.len() ==> (#[trigger] mask[c]).len() >= 1,
            forall|c: int, j: int| 0 <= c < mask.len() && 0 <= j < mask[c].len() ==> (#[trigger] mask[c][j]).wf(),
            vanishing(canonic_coset(self.log_n_rows), point.view()) != 0,
            old(acc).wf(),
        ensures
            final(acc).wf(),
            final(acc).random_coeff == old(acc).random_coeff,
            final(acc).accumulation.val() == horner(
                old(acc).random_coeff.val(),
                old(acc).accumulation.val(),
                scaled(
                    constraint_numerators(row_at(mask@, 0)),
                    finv(vanishing(canonic_coset(self.log_n_rows), point.view())),
                ),
            ),
    {
        let zero_coset = Coset::odds(self.log_n_rows);
        let denominator = coset_vanishing(zero_coset, point);
        self.accumulate_row_quotients(mask, denominator, acc);
    }

    fn accumulate_row_quotients(
        &self,
        mask: &Vec<Vec<M31>>,
        denominator: M31,
        acc: &mut PointEvaluationAccumulator,
    )
        requires
            self.wf(),
            mask.len() == self.n_columns,
            forall|c: int| 0 <= c < mask.len() ==> (#[trigger] mask[c]).len() >= 1,
            forall|c: int, j: int| 0 <= c < mask.len() && 0 <= j < mask[c].len() ==> (#[trigger] mask[c][j]).wf(),
            denominator.wf(),
            denominator.val() != 0,
            old(acc).wf(),
        ensures
            final(acc).wf(),
            final(acc).random_coeff == old(acc).random_coeff,
            final(acc).accumulation.val() == horner(
                old(acc).random_coeff.val(),
                old(acc).accumulation.val(),
                scaled(constraint_numerators(row_at(mask@, 0)), finv(denominator.val())),
            ),
    {
        let row = gather_row(mask, 0);
        let nums = row_numerators(&row);
        let inv = denominator.inverse();
        let ghost r = acc.random_coeff.val();
        let ghost start = acc.accumulation.val();
        let ghost q = scaled(constraint_numerators(row_at(mask@, 0)), finv(denominator.val()));
        let mut k: usize = 0;
        while k < nums.len()
            invariant
                k <= nums.len(),
                forall|i: int| 0 <= i < nums.len() ==> (#[trigger] nums[i]).wf(),
                vals(nums@) == constraint_numerators(row_at(mask@, 0)),
                inv.wf(),
                inv.val() == finv(denominator.val()),
                q == scaled(constraint_numerators(row_at(mask@, 0)), finv(denominator.val())),
                acc.wf(),
                acc.random_coeff == old(acc).random_coeff,
                r == acc.random_coeff.val(),
                start == old(acc).accumulation.val(),
                acc.accumulation.val() == horner(r, start, q.take(k as int)),
            decreases nums.len() - k,
        {
            acc.accumulate(nums[k].mul(inv));
            proof {
                assert(q.take(k + 1).drop_last() =~= q.take(k as int));
            }
            k = k + 1;
        }
        assert(q.take(nums.len() as int) =~= q);
    }
}

/// At one row and one denominator, the point path, started from nothing, accumulates exactly
/// what the domain path adds to the row's cell: the constraint values weighted by their
/// assigned powers, over the denominator.
pub proof fn lemma_domain_point_parity(r: int, row: Seq<int>, d: int)
    requires
        row.len() >= 2,
    ensures
        horner(r, 0, scaled(constraint_numerators(row), finv(d))) == fmul(
            power_sum(
                r,
                constraint_numerators(row),
                (row.len() - 1) as nat,
                (row.len() - 1) as nat,
            ),
            finv(d),
        ),
{
    let nums = constraint_numerators(row);
    lemma_horner_scaled(r, nums, finv(d));
    lemma_power_sum_is_horner(r, nums);
}

/// At the point of the evaluation domain that row `j` stands for, the point path, started from
/// nothing, accumulates exactly what the domain path adds to cell `j`: both divide by the same
/// vanishing value.
pub proof fn lemma_domain_point_parity_at_row(log_n_rows: u32, j: int, r: int, row: Seq<int>)
    requires
        row.len() >= 2,
    ensures
        horner(
            r,
            0,
            scaled(
                constraint_numerators(row),
                finv(
                    vanishing(
                        canonic_coset(log_n_rows),
                        index_point(
                            CircleDomain::canonic_spec((log_n_rows + 1) as u32).spec_index_at(
                                bit_reverse_index(j as nat, (log_n_rows + 1) as nat) as int,
                            ) as nat,
                        ),
                    ),
                ),
            ),
        ) == fmul(
            power_sum(
                r,
                constraint_numerators(row),
                (row.len() - 1) as nat,
                (row.len() - 1) as nat,
            ),
            finv(constraint_denominator(log_n_rows, j)),
        ),
{
    lemma_domain_point_parity(r, row, constraint_denominator(log_n_rows, j));
}

/// Every row of the generated trace meets every constraint.
pub proof fn lemma_trace_satisfies_constraints(row: Seq<int>, r: int)
    requires
        row.len() >= 2,
        forall|c: int| 0 <= c < row.len() ==> #[trigger] row[c] == fib_cell(1, r, c as nat),
    ensures
        forall|k: int| 0 <= k < row.len() - 1 ==> #[trigger] constraint_numerators(row)[k] == 0,
{
    assert forall|k: int| 0 <= k < row.len() - 1 implies #[trigger] constraint_numerators(row)[k] == 0 by {
        if k == 0 {
            assert(row[0] == 1);
        } else {
            lemma_fib_step(1, r, (k + 1) as nat);
            assert(row[k + 1] == fadd(fmul(row[k - 1], row[k - 1]), fmul(row[k], row[k])));
            assert(0 <= row[k + 1] < P as int);
        }
    }
}

/// Writes the row `row` seeded with `a` and `b` into the columns of `dst`, and returns its last
/// two cells.
pub fn write_trace_row(dst: &mut Vec<Vec<M31>>, a: M31, b: M31, row: usize) -> (r: (M31, M31))
    requires
        a.wf(),
        b.wf(),
        old(dst).len() >= 2,
        forall|c: int| 0 <= c < old(dst).len() ==> row < (#[trigger] old(dst)[c]).len(),
    ensures
        final(dst).len() == old(dst).len(),
        forall|c: int| 0 <= c < final(dst).len() ==> (#[trigger] final(dst)[c]).len() == old(dst)[c].len(),
        forall|c: int, i: int|
            0 <= c < final(dst).len() && 0 <= i < final(dst)[c].len() && i != row ==> #[trigger] final(dst)[c][i]
                == old(dst)[c][i],
        forall|c: int|
            0 <= c < final(dst).len() ==> (#[trigger] final(dst)[c][row as int]).wf() && final(dst)[c][row as int].val()
                == fib_cell(a.val(), b.val(), c as nat),
        r.0 == final(dst)[final(dst).len() - 2][row as int],
        r.1 == final(dst)[final(dst).len() - 1][row as int],
{
    let n = dst.len();
    let mut x = a;
    let mut y = b;
    let mut c: usize = 0;
    while c < n
        invariant
            n == dst.len(),
            n == old(dst).len(),
            c <= n,
            x.wf(),
            y.wf(),
            x.val() == fib_pair(a.val(), b.val(), c as nat).0,
            y.val() == fib_pair(a.val(), b.val(), c as nat).1,
            forall|k: int| 0 <= k < n ==> (#[trigger] dst[k]).len() == old(dst)[k].len(),
            forall|k: int| 0 <= k < n ==> row < (#[trigger] dst[k]).len(),
            forall|k: int, i: int|
                0 <= k < n && 0 <= i < dst[k].len() && (i != row || k >= c) ==> #[trigger] dst[k][i] == old(dst)[k][i],
            forall|k: int|
                0 <= k < c ==> (#[trigger] dst[k][row as int]).wf() && dst[k][row as int].val() == fib_cell(
                    a.val(),
                    b.val(),
                    k as nat,
                ),
        decreases n - c,
    {
        let mut col = dst[c].clone();
        col.set(row, x);
        dst.set(c, col);
        let next = x.square().add(y.square());
        x = y;
        y = next;
        c = c + 1;
    }
    (dst[n - 2][row], dst[n - 1][row])
}

/// The wide Fibonacci trace over `2^log_size` rows and `n_columns` columns. The rows come in
/// packed chunks of `2^VECS_LOG_SIZE`; each row restarts the recurrence from its own seeds:
/// one, and the chunk's base index plus the lane, which is the row's index.
pub fn gen_trace(log_size: u32, n_columns: usize) -> (t: Vec<Vec<M31>>)
    requires
        VECS_LOG_SIZE <= log_size < 30,
        n_columns >= 2,
    ensures
        t.len() == n_columns,
        forall|c: int| 0 <= c < n_columns ==> (#[trigger] t[c]).len() == (1u64 << log_size),
        forall|c: int, r: int|
            0 <= c < t.len() && 0 <= r < t[c].len() ==> (#[trigger] t[c][r]).wf() && t[c][r].val()
                == fib_cell(1, r, c as nat),
{
    let size: u64 = 1u64 << log_size;
    assert(log_size < 30 ==> (1u64 << log_size) <= 0x4000_0000u64) by (bit_vector);
    let mut t: Vec<Vec<M31>> = Vec::new();
    let mut firsts: Vec<M31> = Vec::new();
    let mut seconds: Vec<M31> = Vec::new();
    let mut vec_index: u64 = 0;
    while vec_index < (size >> VECS_LOG_SIZE)
        invariant
            size == (1u64 << log_size),
            size <= 0x4000_0000u64,
            VECS_LOG_SIZE <= log_size < 30,
            firsts.len() == seconds.len(),
            firsts.len() == vec_index * 16,
            vec_index <= (size >> VECS_LOG_SIZE),
            forall|r: int| 0 <= r < firsts.len() ==> (#[trigger] firsts[r]).wf() && firsts[r].val() == 1,
            forall|r: int| 0 <= r < seconds.len() ==> (#[trigger] seconds[r]).wf() && seconds[r].val() == r,
        decreases (size >> VECS_LOG_SIZE) - vec_index,
    {
        assert(vec_index < (size >> 4u32) && size <= 0x4000_0000u64 ==> vec_index * 16 + 16 <= size) by (bit_vector);
        let mut lane: u64 = 0;
        while lane < 16
            invariant
                firsts.len() == seconds.len(),
                firsts.len() == vec_index * 16 + lane,
                vec_index * 16 + 16 <= size,
                size <= 0x4000_0000u64,
                lane <= 16,
                forall|r: int| 0 <= r < firsts.len() ==> (#[trigger] firsts[r]).wf() && firsts[r].val() == 1,
                forall|r: int| 0 <= r < seconds.len() ==> (#[trigger] seconds[r]).wf() && seconds[r].val() == r,
            decreases 16 - lane,
        {
            firsts.push(M31::one());
            seconds.push(M31::from_u32_unchecked((vec_index * 16 + lane) as u32));
            lane = lane + 1;
        }
        vec_index = vec_index + 1;
    }
    assert(log_size >= 4u32 && log_size < 30u32 ==> ((1u64 << log_size) >> 4u32) * 16 == (1u64 << log_size)) by (bit_vector);
    t.push(firsts);
    t.push(seconds);
    proof {
        assert forall|c: int, r: int| 0 <= c < t.len() && 0 <= r < t[c].len() implies (#[trigger] t[c][r]).wf()
            && t[c][r].val() == fib_cell(1, r, c as nat) by {
            assert(fib_pair(1, r, 0) == (1int, r));
            assert(fib_pair(1, r, 1).0 == r);
        }
    }
    let mut c: usize = 2;
    while c < n_columns
        invariant
            2 <= c <= n_columns,
            t.len() == c,
            forall|i: int| 0 <= i < c ==> (#[trigger] t[i]).len() == size,
            size == (1u64 << log_size),
            forall|i: int, r: int|
                0 <= i < t.len() && 0 <= r < t[i].len() ==> (#[trigger] t[i][r]).wf() && t[i][r].val()
                    == fib_cell(1, r, i as nat),
        decreases n_columns - c,
    {
        let mut col: Vec<M31> = Vec::new();
        while (col.len() as u64) < size
            invariant
                t.len() == c,
                c >= 2,
                col.len() <= size,
                forall|i: int| 0 <= i < c ==> (#[trigger] t[i]).len() == size,
                forall|i: int, r: int|
                    0 <= i < t.len() && 0 <= r < t[i].len() ==> (#[trigger] t[i][r]).wf() && t[i][r].val()
                        == fib_cell(1, r, i as nat),
                forall|r: int| 0 <= r < col.len() ==> (#[trigger] col[r]).wf() && col[r].val() == fib_cell(1, r, c as nat),
            decreases size - col.len(),
        {
            let r = col.len();
            let a = t[c - 2][r];
            let b = t[c - 1][r];
            proof {
                lemma_fib_step(1, r as int, c as nat);
            }
            col.push(a.square().add(b.square()));
        }
        t.push(col);
        c = c + 1;
    }
    t
}

} // verus!
