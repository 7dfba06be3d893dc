use vstd::prelude::*;
use vstd::arithmetic::power2::{lemma_pow2_strictly_increases, pow2};
use crate::column::{all_nonzero, batch_inverse, BaseFieldVec, SecureFieldVec};
use crate::domain::{bit_reverse, bit_reverse_index};
use crate::m31::{finv, P};
use crate::packed::N_LANES;

verus! {

/// The backend that holds columns in packed chunks and works on them lane by lane.
#[derive(Copy, Clone, Debug)]
pub struct SimdBackend;

/// The exponent `k` with `2^k == n`, where `n` is a power of two.
pub open spec fn log2_of(n: nat) -> nat {
    choose|k: nat| pow2(k) == n
}

/// The exponent of `n`, a power of two below `2^32`.
fn exact_log2(n: usize) -> (log: u32)
    requires
        exists|k: nat| k < 32 && pow2(k) == n,
    ensures
        log < 32,
        pow2(log as nat) == n,
        log as nat == log2_of(n as nat),
{
    let ghost k = choose|k: nat| k < 32 && pow2(k) == n;
    let mut log: u32 = 0;
    proof {
        vstd::arithmetic::power2::lemma2_to64();
    }
    while (1u64 << log) < (n as u64)
        invariant
            n == pow2(k),
            k < 32,
            log <= k,
            pow2(32) == 0x1_0000_0000,
        decreases k - log,
    {
        proof {
            lemma_pow2_strictly_increases(log as nat, 32);
            vstd::bits::lemma_u64_shl_is_mul(1, log as u64);
        }
        log = log + 1;
    }
    proof {
        lemma_pow2_strictly_increases(log as nat, 32);
        vstd::bits::lemma_u64_shl_is_mul(1, log as u64);
        if log < k {
            lemma_pow2_strictly_increases(log as nat, k);
        }
        assert(log == k);
        let l = log2_of(n as nat);
        if l < k {
            lemma_pow2_strictly_increases(l, k);
        } else if l > k {
            lemma_pow2_strictly_increases(k, l);
        }
    }
    log
}

impl SimdBackend {
    /// Puts the secure-field column, of a power-of-two length that fills whole packed chunks,
    /// in bit-reversed order: the value at `j` is the one that stood at the index `j` reversed.
    pub fn bit_reverse_secure_column(column: &mut SecureFieldVec)
        requires
            old(column).wf(),
            exists|k: nat| k < 32 && pow2(k) == old(column).data.len(),
            old(column).data.len() % N_LANES == 0,
        ensures
            final(column).wf(),
            final(column).data.len() == old(column).data.len(),
            forall|j: int|
                0 <= j < final(column).data.len() ==> #[trigger] final(column).data[j] == old(column).data[
                    bit_reverse_index(j as nat, log2_of(old(column).data.len() as nat)) as int],
    {
        let log = exact_log2(column.data.len());
        let data = bit_reverse(&column.data, log);
        proof {
            assert forall|j: int| 0 <= j < data.len() implies (#[trigger] data[j]).wf() by {
                let i = bit_reverse_index(j as nat, log as nat) as int;
                let _ = data[j];
                assert(i < data.len());
                assert(column.data[i].wf());
            }
        }
        column.data = data;
    }

    /// Puts the column, of a power-of-two length that fills whole packed chunks, in bit-reversed order: the value at `j` is
    /// the one that stood at the index `j` reversed.
    pub fn bit_reverse_column(column: &mut BaseFieldVec)
        requires
            old(column).wf(),
            exists|k: nat| k < 32 && pow2(k) == old(column).data.len(),
            old(column).data.len() % N_LANES == 0,
        ensures
            final(column).wf(),
            final(column).data.len() == old(column).data.len(),
            forall|j: int|
                0 <= j < final(column).data.len() ==> #[trigger] final(column).data[j] == old(column).data[
                    bit_reverse_index(j as nat, log2_of(old(column).data.len() as nat)) as int],
    {
        let log = exact_log2(column.data.len());
        let data = bit_reverse(&column.data, log);
        proof {
            assert forall|j: int| 0 <= j < data.len() implies (#[trigger] data[j]).wf() by {
                let i = bit_reverse_index(j as nat, log as nat) as int;
                let _ = data[j];
                assert(i < data.len());
                assert(0 <= i);
                assert(column.data[i].wf());
            }
        }
        column.data = data;
    }

    /// Writes into `dst` the inverse of every element of `column`, which fills whole packed
    /// chunks, with one field inversion.
    pub fn batch_inverse(column: &BaseFieldVec, dst: &mut BaseFieldVec)
        requires
            column.wf(),
            column.data.len() % N_LANES == 0,
            all_nonzero(column.data@),
            old(dst).data.len() == column.data.len(),
        ensures
            final(dst).wf(),
            final(dst).data.len() == column.data.len(),
            forall|i: int|
                0 <= i < column.data.len() ==> (column.data[i].val() * (#[trigger] final(dst).data[i]).val())
                    % (P as int) == 1 && final(dst).data[i].val() == finv(column.data[i].val()),
    {
        batch_inverse(&column.data, &mut dst.data);
    }
}

} // verus!
