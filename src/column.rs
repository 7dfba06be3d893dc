use vstd::prelude::*;
use vstd::arithmetic::div_mod::{lemma_mul_mod_noop_left, lemma_mul_mod_noop_right, lemma_mul_mod_noop};
use vstd::arithmetic::mul::lemma_mul_is_associative;
use crate::packed::{PackedBaseField, N_LANES};
use crate::qm31::QM31;
use crate::m31::{finv, is_invertible, lemma_finv_unique, lemma_nonzero_invertible, M31, P};

verus! {

/// A column of base-field values.
pub struct BaseFieldVec {
    pub data: Vec<M31>,
}

impl BaseFieldVec {
    pub open spec fn wf(&self) -> bool {
        forall|i: int| 0 <= i < self.data.len() ==> (#[trigger] self.data[i]).wf()
    }

    /// A column of `len` zeros.
    pub fn zeros(len: usize) -> (r: BaseFieldVec)
        ensures
            r.wf(),
            r.data.len() == len,
            forall|i: int| 0 <= i < len ==> (#[trigger] r.data[i]).val() == 0,
    {
        let mut data: Vec<M31> = Vec::new();
        while data.len() < len
            invariant
                data.len() <= len,
                forall|i: int| 0 <= i < data.len() ==> (#[trigger] data[i]).wf() && data[i].val() == 0,
            decreases len - data.len(),
        {
            data.push(M31::zero());
        }
        BaseFieldVec { data }
    }

    /// The packed chunk `chunk`: lane `l` holds the element `chunk * N_LANES + l`.
    pub fn packed_at(&self, chunk: usize) -> (r: PackedBaseField)
        requires
            self.wf(),
            (chunk + 1) * N_LANES <= self.data.len(),
        ensures
            r.wf(),
            forall|l: int| 0 <= l < N_LANES ==> #[trigger] r.lanes[l] == self.data[chunk * N_LANES + l],
    {
        let mut lanes: Vec<M31> = Vec::new();
        while lanes.len() < N_LANES
            invariant
                self.wf(),
                (chunk + 1) * N_LANES <= self.data.len(),
                lanes.len() <= N_LANES,
                forall|l: int| 0 <= l < lanes.len() ==> #[trigger] lanes[l] == self.data[chunk * N_LANES + l],
            decreases N_LANES - lanes.len(),
        {
            lanes.push(self.data[chunk * N_LANES + lanes.len()]);
        }
        PackedBaseField { lanes }
    }

    /// Writes `value` over the packed chunk `chunk`, leaving the other elements as they were.
    pub fn set_packed(&mut self, chunk: usize, value: &PackedBaseField)
        requires
            old(self).wf(),
            value.wf(),
            (chunk + 1) * N_LANES <= old(self).data.len(),
        ensures
            final(self).wf(),
            final(self).data.len() == old(self).data.len(),
            forall|i: int|
                0 <= i < final(self).data.len() ==> #[trigger] final(self).data[i] == if chunk * N_LANES <= i < (
                chunk + 1) * N_LANES {
                    value.lanes[i - chunk * N_LANES]
                } else {
                    old(self).data[i]
                },
    {
        let mut l: usize = 0;
        while l < N_LANES
            invariant
                value.wf(),
                self.wf(),
                (chunk + 1) * N_LANES <= self.data.len(),
                self.data.len() == old(self).data.len(),
                l <= N_LANES,
                forall|i: int|
                    0 <= i < self.data.len() ==> #[trigger] self.data[i] == if chunk * N_LANES <= i < chunk
                        * N_LANES + l {
                        value.lanes[i - chunk * N_LANES]
                    } else {
                        old(self).data[i]
                    },
            decreases N_LANES - l,
        {
            self.data.set(chunk * N_LANES + l, value.lanes[l]);
            l = l + 1;
        }
    }

    pub fn len(&self) -> (r: usize)
        ensures
            r == self.data.len(),
    {
        self.data.len()
    }
}

/// Every element of the column has a multiplicative inverse.
pub open spec fn all_invertible(s: Seq<M31>) -> bool {
    forall|i: int| 0 <= i < s.len() ==> #[trigger] is_invertible(s[i].val())
}

/// A column of secure-field values.
pub struct SecureFieldVec {
    pub data: Vec<QM31>,
}

impl SecureFieldVec {
    pub open spec fn wf(&self) -> bool {
        forall|i: int| 0 <= i < self.data.len() ==> (#[trigger] self.data[i]).wf()
    }
}

/// No element of the column is zero.
pub open spec fn all_nonzero(s: Seq<M31>) -> bool {
    forall|i: int| 0 <= i < s.len() ==> #[trigger] s[i].val() != 0
}

/// Whether no element of the column is zero.
pub fn check_all_nonzero(column: &Vec<M31>) -> (ok: bool)
    ensures
        ok == all_nonzero(column@),
{
    let mut i: usize = 0;
    while i < column.len()
        invariant
            i <= column.len(),
            forall|j: int| 0 <= j < i ==> #[trigger] column[j].val() != 0,
        decreases column.len() - i,
    {
        if column[i].value == 0 {
            assert(column@[i as int].val() == 0);
            return false;
        }
        i = i + 1;
    }
    true
}

/// `(a * b) * c == a * (b * c)` modulo `P`, with the inner product reduced.
pub proof fn lemma_mod_mul_assoc(a: int, b: int, c: int)
    ensures
        (((a * b) % (P as int)) * c) % (P as int) == (a * ((b * c) % (P as int))) % (P as int),
{
    let p = P as int;
    lemma_mul_mod_noop_left(a * b, c, p);
    lemma_mul_mod_noop_right(a, b * c, p);
    lemma_mul_is_associative(a, b, c);
}

/// The product of two invertible elements is invertible.
pub proof fn lemma_invertible_mul(a: int, b: int)
    requires
        is_invertible(a),
        is_invertible(b),
    ensures
        is_invertible((a * b) % (P as int)),
{
    let p = P as int;
    let ya = choose|y: int| #[trigger] ((a * y) % p) == 1;
    let yb = choose|y: int| #[trigger] ((b * y) % p) == 1;
    lemma_mul_mod_noop_left(a * b, ya * yb, p);
    assert((a * b) * (ya * yb) == (a * ya) * (b * yb)) by (nonlinear_arith);
    lemma_mul_mod_noop(a * ya, b * yb, p);
    assert(((a * b) % p) * (ya * yb) % p == 1);
}

/// Inverts every element of `column` into `dst` with one field inversion: the running
/// products of the elements are formed, their total is inverted, and each inverse is
/// recovered from that by walking back.
pub fn batch_inverse(column: &Vec<M31>, dst: &mut Vec<M31>)
    requires
        forall|i: int| 0 <= i < column.len() ==> (#[trigger] column[i]).wf(),
        all_nonzero(column@),
        old(dst).len() == column.len(),
    ensures
        final(dst).len() == column.len(),
        forall|i: int|
            0 <= i < column.len() ==> (#[trigger] final(dst)[i]).wf() && (column[i].val()
                * final(dst)[i].val()) % (P as int) == 1 && final(dst)[i].val() == finv(column[i].val()),
{
    let n = column.len();
    let ghost p = P as int;
    proof {
        assert forall|i: int| 0 <= i < column.len() implies #[trigger] is_invertible(column@[i].val()) by {
            lemma_nonzero_invertible(column[i].val());
        }
    }
    // prefix[i] is the product of the first i elements.
    let mut prefix: Vec<M31> = Vec::new();
    prefix.push(M31::one());
    proof {
        assert(is_invertible(1)) by {
            assert((1int * 1int) % p == 1);
        }
    }
    let mut i: usize = 0;
    while i < n
        invariant
            n == column.len(),
            i <= n,
            prefix.len() == i + 1,
            p == P as int,
            forall|j: int| 0 <= j < column.len() ==> (#[trigger] column[j]).wf(),
            all_invertible(column@),
            prefix[0].val() == 1,
            forall|j: int| 0 <= j <= i ==> (#[trigger] prefix[j]).wf() && is_invertible(prefix[j].val()),
            forall|j: int|
                0 <= j < i ==> (#[trigger] prefix[j + 1]).val() == (prefix[j].val() * column[j].val()) % p,
        decreases n - i,
    {
        let next = prefix[i].mul(column[i]);
        proof {
            lemma_invertible_mul(prefix[i as int].val(), column[i as int].val());
        }
        prefix.push(next);
        i = i + 1;
    }
    let mut acc = prefix[n].inverse();
    let mut k: usize = n;
    while k > 0
        invariant
            n == column.len(),
            k <= n,
            prefix.len() == n + 1,
            dst.len() == n,
            p == P as int,
            acc.wf(),
            forall|j: int| 0 <= j < column.len() ==> (#[trigger] column[j]).wf(),
            forall|j: int| 0 <= j <= n ==> (#[trigger] prefix[j]).wf(),
            forall|j: int|
                0 <= j < n ==> (#[trigger] prefix[j + 1]).val() == (prefix[j].val() * column[j].val()) % p,
            (prefix[k as int].val() * acc.val()) % p == 1,
            forall|j: int|
                k <= j < n ==> (#[trigger] dst[j]).wf() && (column[j].val() * dst[j].val()) % p == 1,
        decreases k,
    {
        let j = k - 1;
        let out = acc.mul(prefix[j]);
        let ghost (a, b, c) = (acc.val(), prefix[j as int].val(), column[j as int].val());
        proof {
            // column[j] * (acc * prefix[j]) == acc * (prefix[j] * column[j]) == acc * prefix[j + 1]
            assert(prefix[j + 1].val() == (b * c) % p);
            lemma_mod_mul_assoc(a, b, c);
            lemma_mod_mul_assoc(a, c, b);
            assert(c * ((a * b) % p) % p == ((a * b) % p) * c % p) by (nonlinear_arith);
            assert((b * c) % p == (c * b) % p) by (nonlinear_arith);
            assert(((b * c) % p) * a % p == a * ((b * c) % p) % p) by (nonlinear_arith);
        }
        dst.set(j, out);
        acc = acc.mul(column[j]);
        proof {
            assert(acc.val() == (a * c) % p);
            lemma_mod_mul_assoc(b, a, c);
            lemma_mod_mul_assoc(a, b, c);
            assert(b * ((a * c) % p) % p == b * a * c % p) by {
                lemma_mul_mod_noop_right(b, a * c, p);
                lemma_mul_is_associative(b, a, c);
            }
            assert(b * a * c == a * b * c) by (nonlinear_arith);
            lemma_mul_mod_noop_right(a, b * c, p);
            lemma_mul_is_associative(a, b, c);
            assert(((b * c) % p) * a % p == a * ((b * c) % p) % p) by (nonlinear_arith);
        }
        k = j;
    }
    proof {
        assert forall|i: int| 0 <= i < column.len() implies dst[i].val() == finv(column[i].val()) by {
            lemma_finv_unique(column[i].val(), dst[i].val());
        }
    }
}

} // verus!
