use vstd::prelude::*;
use vstd::arithmetic::power2::{lemma_pow2_pos, lemma_pow2_unfold, pow2};
use crate::circle::{canonic_coset, coset_vanishing, index_point, vanishing, CirclePoint, Coset, CIRCLE_ORDER, LOG_CIRCLE_ORDER};
use crate::m31::M31;

verus! {

/// Reverses the low `bits` bits of `x` onto `acc`, lowest bit first.
pub open spec fn rev_acc(x: nat, acc: nat, bits: nat) -> nat
    decreases bits,
{
    if bits == 0 {
        acc
    } else {
        rev_acc(x / 2, 2 * acc + x % 2, (bits - 1) as nat)
    }
}

/// The index whose low `bits` bits are those of `i` in reverse order.
pub open spec fn bit_reverse_index(i: nat, bits: nat) -> nat {
    rev_acc(i, 0, bits)
}

proof fn lemma_rev_acc_bound(x: nat, acc: nat, bits: nat)
    ensures
        rev_acc(x, acc, bits) < (acc + 1) * pow2(bits),
    decreases bits,
{
    if bits == 0 {
        assert(pow2(0) == 1) by {
            vstd::arithmetic::power2::lemma2_to64();
        }
    } else {
        lemma_rev_acc_bound(x / 2, 2 * acc + x % 2, (bits - 1) as nat);
        lemma_pow2_unfold(bits);
        lemma_pow2_pos((bits - 1) as nat);
        let q = pow2((bits - 1) as nat);
        assert((2 * acc + x % 2 + 1) * q <= (acc + 1) * (2 * q)) by (nonlinear_arith)
            requires x % 2 <= 1, q > 0;
    }
}

/// The index `i` with its low `bits` bits reversed.
pub fn bit_reverse_index_of(i: u64, bits: u32) -> (r: u64)
    requires
        bits < 32,
    ensures
        r == bit_reverse_index(i as nat, bits as nat),
        r < pow2(bits as nat),
{
    let mut x: u64 = i;
    let mut acc: u64 = 0;
    let mut k: u32 = 0;
    proof {
        vstd::arithmetic::power2::lemma2_to64();
    }
    while k < bits
        invariant
            k <= bits < 32,
            rev_acc(x as nat, acc as nat, (bits - k) as nat) == bit_reverse_index(i as nat, bits as nat),
            acc < pow2(k as nat),
            pow2(32) == 0x1_0000_0000,
        decreases bits - k,
    {
        proof {
            lemma_pow2_unfold((k + 1) as nat);
            vstd::arithmetic::power2::lemma_pow2_strictly_increases((k + 1) as nat, 32);
        }
        acc = 2 * acc + x % 2;
        x = x / 2;
        k = k + 1;
    }
    proof {
        lemma_rev_acc_bound(i as nat, 0, bits as nat);
    }
    acc
}

/// The values in bit-reversed order: the value at `j` is the one at the index `j` reversed.
pub fn bit_reverse<T: Copy>(values: &Vec<T>, log_size: u32) -> (r: Vec<T>)
    requires
        log_size < 32,
        values.len() == pow2(log_size as nat),
    ensures
        r.len() == values.len(),
        forall|j: int|
            0 <= j < r.len() ==> #[trigger] r[j] == values[bit_reverse_index(j as nat, log_size as nat) as int]
                && bit_reverse_index(j as nat, log_size as nat) < r.len(),
{
    let mut r: Vec<T> = Vec::new();
    while r.len() < values.len()
        invariant
            log_size < 32,
            values.len() == pow2(log_size as nat),
            r.len() <= values.len(),
            forall|j: int|
                0 <= j < r.len() ==> #[trigger] r[j] == values[bit_reverse_index(j as nat, log_size as nat) as int],
        decreases values.len() - r.len(),
    {
        let j = bit_reverse_index_of(r.len() as u64, log_size);
        r.push(values[j as usize]);
    }
    proof {
        assert forall|j: int| 0 <= j < r.len() implies #[trigger] r[j] == values[bit_reverse_index(
            j as nat,
            log_size as nat,
        ) as int] && bit_reverse_index(j as nat, log_size as nat) < r.len() by {
            lemma_rev_acc_bound(j as nat, 0, log_size as nat);
            let q = pow2(log_size as nat);
            assert((0 + 1) * q == q) by (nonlinear_arith);
            assert(r[j] == values[bit_reverse_index(j as nat, log_size as nat) as int]);
        }
    }
    r
}

/// The canonic circle domain: a half coset and its conjugate, the points of the half coset
/// first.
#[derive(Clone, Copy, Debug, PartialEq, Eq)]
pub struct CircleDomain {
    pub half_coset: Coset,
}

impl CircleDomain {
    pub open spec fn wf(self) -> bool {
        self.half_coset.wf()
    }

    pub open spec fn size(self) -> nat {
        2 * pow2(self.half_coset.log_size as nat)
    }

    /// The index of point `i` of the domain.
    pub open spec fn spec_index_at(self, i: int) -> int {
        let half = pow2(self.half_coset.log_size as nat) as int;
        let c = self.half_coset;
        if i < half {
            (c.initial_index + i * c.step_size) % (CIRCLE_ORDER as int)
        } else {
            (CIRCLE_ORDER as int - (c.initial_index + (i - half) * c.step_size) % (CIRCLE_ORDER as int))
                % (CIRCLE_ORDER as int)
        }
    }

    /// The canonic domain of `2^log_size` points.
    pub fn canonic(log_size: u32) -> (d: CircleDomain)
        requires
            2 <= log_size < LOG_CIRCLE_ORDER,
        ensures
            d.wf(),
            d == CircleDomain::canonic_spec(log_size),
            d.size() == pow2(log_size as nat),
    {
        let init = CIRCLE_ORDER >> (log_size + 1);
        assert(2 <= log_size < 31 ==> (0x8000_0000u32 >> (log_size + 1) as u32) < 0x8000_0000u32) by (bit_vector);
        proof {
            lemma_pow2_unfold(log_size as nat);
        }
        CircleDomain { half_coset: Coset::new(init, log_size - 1) }
    }

    /// Point `i` of the domain.
    pub fn at(&self, i: u32) -> (p: CirclePoint)
        requires
            self.wf(),
            self.half_coset.log_size < 31,
            i < self.size(),
        ensures
            p.wf(),
            p.view() == index_point(self.spec_index_at(i as int) as nat),
    {
        let ls = self.half_coset.log_size;
        proof {
            vstd::arithmetic::power2::lemma2_to64();
            vstd::arithmetic::power2::lemma_pow2_strictly_increases(ls as nat, 31);
            vstd::bits::lemma_u32_shl_is_mul(1, ls);
        }
        let half: u32 = 1u32 << ls;
        if i < half {
            crate::circle::index_to_point(self.half_coset.index_at(i))
        } else {
            let k = self.half_coset.index_at(i - half);
            crate::circle::index_to_point((CIRCLE_ORDER - k) % CIRCLE_ORDER)
        }
    }
}

/// The vanishing denominator at `j` of a trace of `2^log_n_rows` rows: the vanishing polynomial
/// of the trace's canonic coset at the point of index `j` reversed of the domain of twice the
/// size.
pub open spec fn constraint_denominator(log_n_rows: u32, j: int) -> int {
    vanishing(
        canonic_coset(log_n_rows),
        index_point(
            CircleDomain::canonic_spec((log_n_rows + 1) as u32).spec_index_at(
                bit_reverse_index(j as nat, (log_n_rows + 1) as nat) as int,
            ) as nat,
        ),
    )
}

/// The vanishing denominators of the constraints of a trace of `2^log_n_rows` rows over the
/// domain of twice that size, in bit-reversed order: at `j`, the vanishing polynomial of the
/// canonic coset of the trace at the domain's point of index `j` reversed.
pub fn constraint_denominators(log_n_rows: u32) -> (r: Vec<M31>)
    requires
        2 <= log_n_rows < 29,
    ensures
        r.len() == pow2((log_n_rows + 1) as nat),
        forall|j: int|
            0 <= j < r.len() ==> (#[trigger] r[j]).wf() && r[j].val() == constraint_denominator(log_n_rows, j),
{
    let zero_coset = Coset::odds(log_n_rows);
    let domain = CircleDomain::canonic(log_n_rows + 1);
    let n: u64 = 1u64 << (log_n_rows + 1);
    proof {
        vstd::arithmetic::power2::lemma2_to64();
        vstd::arithmetic::power2::lemma_pow2_strictly_increases((log_n_rows + 1) as nat, 31);
        vstd::bits::lemma_u64_shl_is_mul(1, (log_n_rows + 1) as u64);
    }
    let mut natural: Vec<M31> = Vec::new();
    while (natural.len() as u64) < n
        invariant
            n == pow2((log_n_rows + 1) as nat),
            n <= 0x8000_0000u64,
            natural.len() <= n,
            domain == CircleDomain::canonic_spec((log_n_rows + 1) as u32),
            domain.wf(),
            domain.size() == n,
            domain.half_coset.log_size < 31,
            zero_coset.wf(),
            zero_coset == (Coset {
                initial_index: (CIRCLE_ORDER >> (log_n_rows + 1) as u32),
                step_size: (CIRCLE_ORDER >> log_n_rows),
                log_size: log_n_rows,
            }),
            forall|i: int|
                0 <= i < natural.len() ==> (#[trigger] natural[i]).wf() && natural[i].val() == vanishing(
                    zero_coset,
                    index_point(domain.spec_index_at(i) as nat),
                ),
        decreases n - natural.len(),
    {
        let p = domain.at(natural.len() as u32);
        natural.push(coset_vanishing(zero_coset, p));
    }
    let r = bit_reverse(&natural, log_n_rows + 1);
    proof {
        assert forall|j: int| 0 <= j < r.len() implies (#[trigger] r[j]).wf() && r[j].val() == vanishing(
            zero_coset,
            index_point(domain.spec_index_at(bit_reverse_index(j as nat, (log_n_rows + 1) as nat) as int) as nat),
        ) by {
            lemma_rev_acc_bound(j as nat, 0, (log_n_rows + 1) as nat);
        }
    }
    r
}

impl CircleDomain {
    /// The canonic domain of `2^log_size` points, as `canonic` builds it.
    pub open spec fn canonic_spec(log_size: u32) -> CircleDomain {
        CircleDomain {
            half_coset: Coset {
                initial_index: (CIRCLE_ORDER >> (log_size + 1) as u32),
                step_size: (CIRCLE_ORDER >> (log_size - 1) as u32),
                log_size: (log_size - 1) as u32,
            },
        }
    }
}

} // verus!
