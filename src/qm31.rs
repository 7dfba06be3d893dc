use vstd::prelude::*;
use crate::m31::{fadd, fmul, fsub, M31};

verus! {

/// The product in `M31[i] / (i^2 + 1)`.
pub open spec fn cm_mul(x: (int, int), y: (int, int)) -> (int, int) {
    (fsub(fmul(x.0, y.0), fmul(x.1, y.1)), fadd(fmul(x.0, y.1), fmul(x.1, y.0)))
}

pub open spec fn cm_add(x: (int, int), y: (int, int)) -> (int, int) {
    (fadd(x.0, y.0), fadd(x.1, y.1))
}

pub open spec fn cm_sub(x: (int, int), y: (int, int)) -> (int, int) {
    (fsub(x.0, y.0), fsub(x.1, y.1))
}

/// The product in `CM31[u] / (u^2 - (2 + i))`.
pub open spec fn qm_mul(x: ((int, int), (int, int)), y: ((int, int), (int, int))) -> ((int, int), (int, int)) {
    (
        cm_add(cm_mul(x.0, y.0), cm_mul((2, 1), cm_mul(x.1, y.1))),
        cm_add(cm_mul(x.0, y.1), cm_mul(x.1, y.0)),
    )
}

/// An element `a + b i` of the degree-two extension.
#[derive(Clone, Copy, Debug, PartialEq, Eq)]
pub struct CM31 {
    pub a: M31,
    pub b: M31,
}

impl CM31 {
    pub open spec fn wf(self) -> bool {
        self.a.wf() && self.b.wf()
    }

    pub open spec fn view(self) -> (int, int) {
        (self.a.val(), self.b.val())
    }

    pub fn from_m31(a: M31, b: M31) -> (r: CM31)
        ensures
            r.a == a,
            r.b == b,
    {
        CM31 { a, b }
    }

    pub fn add(self, o: CM31) -> (r: CM31)
        requires
            self.wf(),
            o.wf(),
        ensures
            r.wf(),
            r.view() == cm_add(self.view(), o.view()),
    {
        CM31 { a: self.a.add(o.a), b: self.b.add(o.b) }
    }

    pub fn sub(self, o: CM31) -> (r: CM31)
        requires
            self.wf(),
            o.wf(),
        ensures
            r.wf(),
            r.view() == cm_sub(self.view(), o.view()),
    {
        CM31 { a: self.a.sub(o.a), b: self.b.sub(o.b) }
    }

    pub fn neg_cm(self) -> (r: CM31)
        requires
            self.wf(),
        ensures
            r.wf(),
            r.view() == ((0 - self.a.val()) % 0x7fff_ffff, (0 - self.b.val()) % 0x7fff_ffff),
    {
        CM31 { a: self.a.neg(), b: self.b.neg() }
    }

    pub fn mul(self, o: CM31) -> (r: CM31)
        requires
            self.wf(),
            o.wf(),
        ensures
            r.wf(),
            r.view() == cm_mul(self.view(), o.view()),
    {
        CM31 {
            a: self.a.mul(o.a).sub(self.b.mul(o.b)),
            b: self.a.mul(o.b).add(self.b.mul(o.a)),
        }
    }
}

/// An element `a + b u` of the degree-four extension, the field in which constraints are
/// combined for soundness.
#[derive(Clone, Copy, Debug, PartialEq, Eq)]
pub struct QM31 {
    pub a: CM31,
    pub b: CM31,
}

impl QM31 {
    pub open spec fn wf(self) -> bool {
        self.a.wf() && self.b.wf()
    }

    pub open spec fn view(self) -> ((int, int), (int, int)) {
        (self.a.view(), self.b.view())
    }

    /// The element `(a + b i) + (c + d i) u` of four base-field coordinates.
    pub fn from_m31s(a: M31, b: M31, c: M31, d: M31) -> (r: QM31)
        ensures
            r.a.a == a && r.a.b == b && r.b.a == c && r.b.b == d,
    {
        QM31 { a: CM31 { a, b }, b: CM31 { a: c, b: d } }
    }

    /// The base-field element as an element of the extension.
    pub fn from_base(x: M31) -> (r: QM31)
        requires
            x.wf(),
        ensures
            r.wf(),
            r.view() == ((x.val(), 0int), (0int, 0int)),
    {
        QM31::from_m31s(x, M31::zero(), M31::zero(), M31::zero())
    }

    pub fn add(self, o: QM31) -> (r: QM31)
        requires
            self.wf(),
            o.wf(),
        ensures
            r.wf(),
            r.view() == (cm_add(self.a.view(), o.a.view()), cm_add(self.b.view(), o.b.view())),
    {
        QM31 { a: self.a.add(o.a), b: self.b.add(o.b) }
    }

    pub fn sub(self, o: QM31) -> (r: QM31)
        requires
            self.wf(),
            o.wf(),
        ensures
            r.wf(),
            r.view() == (cm_sub(self.a.view(), o.a.view()), cm_sub(self.b.view(), o.b.view())),
    {
        QM31 { a: self.a.sub(o.a), b: self.b.sub(o.b) }
    }

    pub fn mul(self, o: QM31) -> (r: QM31)
        requires
            self.wf(),
            o.wf(),
        ensures
            r.wf(),
            r.view() == qm_mul(self.view(), o.view()),
    {
        let r = CM31 { a: M31::from_u32_unchecked(2), b: M31::one() };
        QM31 {
            a: self.a.mul(o.a).add(r.mul(self.b.mul(o.b))),
            b: self.a.mul(o.b).add(self.b.mul(o.a)),
        }
    }

    /// The inverse, by `(a - b u) / (a^2 - (2 + i) b^2)` and `(c - d i) / (c^2 + d^2)`, where
    /// that gives one; `None` for zero.
    pub fn try_inverse(self) -> (r: Option<QM31>)
        requires
            self.wf(),
        ensures
            r matches Some(y) ==> y.wf() && qm_mul(self.view(), y.view()) == ((1int, 0int), (0int, 0int)),
            self.view() == ((0int, 0int), (0int, 0int)) ==> r is None,
    {
        let rr = CM31 { a: M31::from_u32_unchecked(2), b: M31::one() };
        let denom = self.a.mul(self.a).sub(rr.mul(self.b.mul(self.b)));
        let norm = denom.a.square().add(denom.b.square());
        if norm.value == 0 {
            return None;
        }
        let inv_norm = norm.inverse();
        let denom_inv = CM31 { a: denom.a.mul(inv_norm), b: denom.b.neg().mul(inv_norm) };
        let y = QM31 { a: self.a.mul(denom_inv), b: self.b.neg_cm().mul(denom_inv) };
        let p = self.mul(y);
        if p.a.a.value == 1 && p.a.b.value == 0 && p.b.a.value == 0 && p.b.b.value == 0 {
            Some(y)
        } else {
            None
        }
    }
}

} // verus!
