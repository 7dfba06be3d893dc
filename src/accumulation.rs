use vstd::prelude::*;
use vstd::arithmetic::div_mod::{
    lemma_add_mod_noop, lemma_add_mod_noop_right, lemma_mul_mod_noop_left, lemma_mul_mod_noop_right,
};
use crate::column::lemma_mod_mul_assoc;
use crate::m31::{fadd, fmul, fpow, M31, P};

verus! {

/// The powers `r^0, r^1, ..., r^(n-1)` of the challenge `r`.
pub fn generate_powers(r: M31, n: usize) -> (v: Vec<M31>)
    requires
        r.wf(),
    ensures
        v.len() == n,
        forall|i: int| 0 <= i < n ==> (#[trigger] v[i]).wf() && v[i].val() == fpow(r.val(), i as nat),
{
    let mut v: Vec<M31> = Vec::new();
    let mut cur = M31::one();
    while v.len() < n
        invariant
            r.wf(),
            v.len() <= n,
            cur.wf(),
            cur.val() == fpow(r.val(), v.len() as nat),
            forall|i: int| 0 <= i < v.len() ==> (#[trigger] v[i]).wf() && v[i].val() == fpow(r.val(), i as nat),
        decreases n - v.len(),
    {
        v.push(cur);
        cur = cur.mul(r);
    }
    v
}

/// Combines values in order onto `start`, each step multiplying what came before by `r`:
/// the value at index `k` of `n` ends up weighted by `r^(n-1-k)`.
pub open spec fn horner(r: int, start: int, vals: Seq<int>) -> int
    decreases vals.len(),
{
    if vals.len() == 0 {
        start
    } else {
        fadd(fmul(horner(r, start, vals.drop_last()), r), vals.last())
    }
}

/// The sum of the first `m` values, the one at index `k` weighted by `r^(n-1-k)`.
pub open spec fn power_sum(r: int, vals: Seq<int>, n: nat, m: nat) -> int
    decreases m,
{
    if m == 0 {
        0
    } else {
        fadd(power_sum(r, vals, n, (m - 1) as nat), fmul(fpow(r, (n - m) as nat), vals[m - 1]))
    }
}

/// Scaling one Horner step by `q` scales what came before by `q * r` and the new value by `q`.
proof fn lemma_step_scale(a: int, r: int, v: int, q: int)
    ensures
        fmul(fadd(fmul(a, r), v), q) == fadd(fmul(a, fmul(q, r)), fmul(q, v)),
{
    let p = P as int;
    lemma_add_mod_noop_right(v, a * r, p);
    assert((a * r) % p + v == v + (a * r) % p);
    assert(a * r + v == v + a * r);
    lemma_mul_mod_noop_left(a * r + v, q, p);
    lemma_mul_mod_noop_right(a, q * r, p);
    lemma_add_mod_noop(a * (q * r), q * v, p);
    assert((a * r + v) * q == a * (q * r) + q * v) by (nonlinear_arith);
}

/// The first `m` values weighted by descending powers are the Horner combination of those
/// values, shifted by the `n - m` powers still to come.
proof fn lemma_power_sum_prefix(r: int, vals: Seq<int>, n: nat, m: nat)
    requires
        m <= n,
        n <= vals.len(),
    ensures
        power_sum(r, vals, n, m) == fmul(horner(r, 0, vals.take(m as int)), fpow(r, (n - m) as nat)),
    decreases m,
{
    if m > 0 {
        let q = fpow(r, (n - m) as nat);
        let h = horner(r, 0, vals.take(m - 1));
        lemma_power_sum_prefix(r, vals, n, (m - 1) as nat);
        assert(fpow(r, (n - (m - 1)) as nat) == fmul(q, r)) by {
            assert(fpow(r, (n - m + 1) as nat) == fmul(fpow(r, (n - m) as nat), r));
            assert(fmul(fpow(r, (n - m) as nat), r) == fmul(r, fpow(r, (n - m) as nat))) by (nonlinear_arith);
            assert(fmul(r, q) == fmul(q, r)) by (nonlinear_arith);
        }
        lemma_step_scale(h, r, vals[m - 1], q);
        assert(vals.take(m as int).drop_last() =~= vals.take(m - 1));
        assert(fmul(q, vals[m - 1]) == fmul(fpow(r, (n - m) as nat), vals[m - 1]));
    } else {
        assert(fmul(0, fpow(r, n)) == 0);
    }
}

/// Combining with descending powers all at once is combining in order, step by step.
pub proof fn lemma_power_sum_is_horner(r: int, vals: Seq<int>)
    ensures
        power_sum(r, vals, vals.len(), vals.len()) == horner(r, 0, vals),
{
    lemma_power_sum_prefix(r, vals, vals.len(), vals.len());
    assert(vals.take(vals.len() as int) =~= vals);
    let h = horner(r, 0, vals);
    assert(0 <= h < P as int);
    assert(fmul(h, 1) == h);
}

/// Combining values each multiplied by `y` is combining them, then multiplying by `y`.
pub proof fn lemma_horner_scaled(r: int, vals: Seq<int>, y: int)
    ensures
        horner(r, 0, vals.map_values(|x: int| fmul(x, y))) == fmul(horner(r, 0, vals), y),
    decreases vals.len(),
{
    let sv = vals.map_values(|x: int| fmul(x, y));
    if vals.len() > 0 {
        let dl = vals.drop_last();
        assert(sv.drop_last() =~= dl.map_values(|x: int| fmul(x, y)));
        lemma_horner_scaled(r, dl, y);
        let h = horner(r, 0, dl);
        let v = vals.last();
        lemma_step_scale(h, r, v, y);
        lemma_mod_mul_assoc(h, y, r);
        assert(fmul(v, y) == fmul(y, v)) by (nonlinear_arith);
    } else {
        assert(fmul(0, y) == 0);
    }
}

/// The accumulation bucket of one degree bound: a column over the evaluation domain and
/// one challenge power per constraint.
pub struct DomainEvaluationAccumulator {
    pub random_coeff: M31,
    pub log_size: u32,
    pub n_constraints: usize,
    pub random_coeff_powers: Vec<M31>,
    pub col: Vec<M31>,
}

impl DomainEvaluationAccumulator {
    pub open spec fn wf(&self) -> bool {
        &&& self.random_coeff.wf()
        &&& self.random_coeff_powers.len() == self.n_constraints
        &&& forall|i: int|
            0 <= i < self.n_constraints ==> (#[trigger] self.random_coeff_powers[i]).wf()
                && self.random_coeff_powers[i].val() == fpow(self.random_coeff.val(), i as nat)
        &&& self.log_size < 64
        &&& self.col.len() == (1u64 << self.log_size)
        &&& forall|i: int| 0 <= i < self.col.len() ==> (#[trigger] self.col[i]).wf()
    }

    /// A bucket of `2^log_size` zeros for `n_constraints` constraints.
    pub fn new(random_coeff: M31, log_size: u32, n_constraints: usize) -> (r: Self)
        requires
            random_coeff.wf(),
            log_size < 32,
        ensures
            r.wf(),
            r.random_coeff == random_coeff,
            r.log_size == log_size,
            r.n_constraints == n_constraints,
            forall|i: int| 0 <= i < r.col.len() ==> (#[trigger] r.col[i]).val() == 0,
    {
        let size: u64 = 1u64 << log_size;
        assert(log_size < 32 ==> (1u64 << log_size) <= 0x8000_0000u64) by (bit_vector);
        let mut col: Vec<M31> = Vec::new();
        while (col.len() as u64) < size
            invariant
                col.len() <= size,
                size <= 0x8000_0000u64,
                forall|i: int| 0 <= i < col.len() ==> (#[trigger] col[i]).wf() && col[i].val() == 0,
            decreases size - col.len(),
        {
            col.push(M31::zero());
        }
        DomainEvaluationAccumulator {
            random_coeff,
            log_size,
            n_constraints,
            random_coeff_powers: generate_powers(random_coeff, n_constraints),
            col,
        }
    }

    /// The challenge power by which constraint `k` is weighted.
    pub fn assigned_power(&self, k: usize) -> (r: M31)
        requires
            self.wf(),
            k < self.n_constraints,
        ensures
            r.wf(),
            r.val() == fpow(self.random_coeff.val(), (self.n_constraints - 1 - k) as nat),
    {
        self.random_coeff_powers[self.n_constraints - 1 - k]
    }

    /// The weighted sum of one row's constraint values, each weighted by its assigned power.
    pub fn combine(&self, vals: &Vec<M31>) -> (r: M31)
        requires
            self.wf(),
            vals.len() == self.n_constraints,
            forall|i: int| 0 <= i < vals.len() ==> (#[trigger] vals[i]).wf(),
        ensures
            r.wf(),
            r.val() == power_sum(
                self.random_coeff.val(),
                vals@.map_values(|v: M31| v.val()),
                self.n_constraints as nat,
                self.n_constraints as nat,
            ),
    {
        let ghost s = vals@.map_values(|v: M31| v.val());
        let n = self.n_constraints;
        let mut acc = M31::zero();
        let mut k: usize = 0;
        while k < n
            invariant
                self.wf(),
                n == self.n_constraints,
                vals.len() == n,
                s == vals@.map_values(|v: M31| v.val()),
                forall|i: int| 0 <= i < vals.len() ==> (#[trigger] vals[i]).wf(),
                k <= n,
                acc.wf(),
                acc.val() == power_sum(self.random_coeff.val(), s, n as nat, k as nat),
            decreases n - k,
        {
            let w = self.random_coeff_powers[n - 1 - k];
            acc = acc.add(w.mul(vals[k]));
            k = k + 1;
        }
        acc
    }

    /// Adds `value` into the cell `row`.
    pub fn add_at(&mut self, row: usize, value: M31)
        requires
            old(self).wf(),
            row < old(self).col.len(),
            value.wf(),
        ensures
            final(self).wf(),
            final(self).random_coeff == old(self).random_coeff,
            final(self).log_size == old(self).log_size,
            final(self).n_constraints == old(self).n_constraints,
            final(self).random_coeff_powers == old(self).random_coeff_powers,
            final(self).col@ == old(self).col@.update(
                row as int,
                M31 { value: fadd(old(self).col[row as int].val(), value.val()) as u32 },
            ),
    {
        let cur = self.col[row];
        let next = cur.add(value);
        self.col.set(row, next);
    }
}

/// One bucket per request `(log_size, n_constraints)`, each of `2^log_size` zeros, all under
/// the one challenge `random_coeff`.
pub fn allocate(random_coeff: M31, requests: &Vec<(u32, usize)>) -> (r: Vec<DomainEvaluationAccumulator>)
    requires
        random_coeff.wf(),
        forall|i: int| 0 <= i < requests.len() ==> (#[trigger] requests[i]).0 < 32,
    ensures
        r.len() == requests.len(),
        forall|i: int|
            0 <= i < r.len() ==> {
                &&& (#[trigger] r[i]).wf()
                &&& r[i].random_coeff == random_coeff
                &&& r[i].log_size == requests[i].0
                &&& r[i].n_constraints == requests[i].1
                &&& forall|j: int| 0 <= j < r[i].col.len() ==> (#[trigger] r[i].col[j]).val() == 0
            },
{
    let mut r: Vec<DomainEvaluationAccumulator> = Vec::new();
    while r.len() < requests.len()
        invariant
            random_coeff.wf(),
            forall|i: int| 0 <= i < requests.len() ==> (#[trigger] requests[i]).0 < 32,
            r.len() <= requests.len(),
            forall|i: int|
                0 <= i < r.len() ==> {
                    &&& (#[trigger] r[i]).wf()
                    &&& r[i].random_coeff == random_coeff
                    &&& r[i].log_size == requests[i].0
                    &&& r[i].n_constraints == requests[i].1
                    &&& forall|j: int| 0 <= j < r[i].col.len() ==> (#[trigger] r[i].col[j]).val() == 0
                },
        decreases requests.len() - r.len(),
    {
        let (log_size, n_constraints) = requests[r.len()];
        r.push(DomainEvaluationAccumulator::new(random_coeff, log_size, n_constraints));
    }
    r
}

/// The accumulator of the point path: one field value, combined in order.
pub struct PointEvaluationAccumulator {
    pub random_coeff: M31,
    pub accumulation: M31,
}

impl PointEvaluationAccumulator {
    pub open spec fn wf(&self) -> bool {
        self.random_coeff.wf() && self.accumulation.wf()
    }

    pub fn new(random_coeff: M31) -> (r: Self)
        requires
            random_coeff.wf(),
        ensures
            r.wf(),
            r.random_coeff == random_coeff,
            r.accumulation.val() == 0,
    {
        PointEvaluationAccumulator { random_coeff, accumulation: M31::zero() }
    }

    /// Multiplies what was accumulated by the challenge and adds `value`.
    pub fn accumulate(&mut self, value: M31)
        requires
            old(self).wf(),
            value.wf(),
        ensures
            final(self).wf(),
            final(self).random_coeff == old(self).random_coeff,
            final(self).accumulation.val() == fadd(
                fmul(old(self).accumulation.val(), old(self).random_coeff.val()),
                value.val(),
            ),
    {
        self.accumulation = self.accumulation.mul(self.random_coeff).add(value);
    }

    pub fn finalize(&self) -> (r: M31)
        ensures
            r == self.accumulation,
    {
        self.accumulation
    }
}

} // verus!
