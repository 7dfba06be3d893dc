use vstd::prelude::*;
use crate::m31::{fadd, fmul, fsub, M31};

verus! {

/// The log of the order of the circle group over the base field.
pub const LOG_CIRCLE_ORDER: u32 = 31;

/// The order of the circle group, `2^31`.
pub const CIRCLE_ORDER: u32 = 0x8000_0000;

/// The coordinates of the generator of the circle group.
pub const GEN_X: u32 = 2;
pub const GEN_Y: u32 = 1268011823;

/// The sum of two points: `(x1 x2 - y1 y2, x1 y2 + y1 x2)`.
pub open spec fn pt_add(a: (int, int), b: (int, int)) -> (int, int) {
    (fsub(fmul(a.0, b.0), fmul(a.1, b.1)), fadd(fmul(a.0, b.1), fmul(a.1, b.0)))
}

/// The point `k * g`, by doubling and adding.
pub open spec fn pt_mul(g: (int, int), k: nat) -> (int, int)
    decreases k,
{
    if k == 0 {
        (1, 0)
    } else {
        let h = pt_mul(pt_add(g, g), k / 2);
        if k % 2 == 1 {
            pt_add(h, g)
        } else {
            h
        }
    }
}

/// The point of index `i`: `i` times the generator.
pub open spec fn index_point(i: nat) -> (int, int) {
    pt_mul((GEN_X as int, GEN_Y as int), i % (CIRCLE_ORDER as nat))
}

/// The `x` coordinate of `2^k` times a point of `x` coordinate `x`, by `x -> 2 x^2 - 1`.
pub open spec fn double_x_times(x: int, k: nat) -> int
    decreases k,
{
    if k == 0 {
        x
    } else {
        double_x_times(fsub(fadd(fmul(x, x), fmul(x, x)), 1), (k - 1) as nat)
    }
}

/// A point of the circle `x^2 + y^2 = 1` over the base field.
#[derive(Clone, Copy, Debug, PartialEq, Eq)]
pub struct CirclePoint {
    pub x: M31,
    pub y: M31,
}

impl CirclePoint {
    pub open spec fn wf(self) -> bool {
        self.x.wf() && self.y.wf()
    }

    pub open spec fn view(self) -> (int, int) {
        (self.x.val(), self.y.val())
    }

    pub fn zero() -> (r: CirclePoint)
        ensures
            r.wf(),
            r.view() == (1int, 0int),
    {
        CirclePoint { x: M31::one(), y: M31::zero() }
    }

    pub fn generator() -> (r: CirclePoint)
        ensures
            r.wf(),
            r.view() == (GEN_X as int, GEN_Y as int),
    {
        CirclePoint { x: M31::from_u32_unchecked(GEN_X), y: M31::from_u32_unchecked(GEN_Y) }
    }

    pub fn add(self, o: CirclePoint) -> (r: CirclePoint)
        requires
            self.wf(),
            o.wf(),
        ensures
            r.wf(),
            r.view() == pt_add(self.view(), o.view()),
    {
        CirclePoint {
            x: self.x.mul(o.x).sub(self.y.mul(o.y)),
            y: self.x.mul(o.y).add(self.y.mul(o.x)),
        }
    }

    /// The inverse of the point in the group: `(x, -y)`.
    pub fn conjugate(self) -> (r: CirclePoint)
        requires
            self.wf(),
        ensures
            r.wf(),
            r.view() == (self.x.val(), (0 - self.y.val()) % 0x7fff_ffff),
    {
        CirclePoint { x: self.x, y: self.y.neg() }
    }

    pub fn sub(self, o: CirclePoint) -> (r: CirclePoint)
        requires
            self.wf(),
            o.wf(),
        ensures
            r.wf(),
            r.view() == pt_add(self.view(), (o.x.val(), (0 - o.y.val()) % 0x7fff_ffff)),
    {
        self.add(o.conjugate())
    }

    /// `k` times the point.
    pub fn mul(self, k: u64) -> (r: CirclePoint)
        requires
            self.wf(),
        ensures
            r.wf(),
            r.view() == pt_mul(self.view(), k as nat),
        decreases k,
    {
        if k == 0 {
            CirclePoint::zero()
        } else {
            let h = self.add(self).mul(k / 2);
            if k % 2 == 1 {
                h.add(self)
            } else {
                h
            }
        }
    }

    /// The `x` coordinate of the double of a point of `x` coordinate `x`: `2 x^2 - 1`.
    pub fn double_x(x: M31) -> (r: M31)
        requires
            x.wf(),
        ensures
            r.wf(),
            r.val() == fsub(fadd(fmul(x.val(), x.val()), fmul(x.val(), x.val())), 1),
    {
        let sq = x.square();
        sq.add(sq).sub(M31::one())
    }
}

/// The point of index `i`, that is `i` times the generator.
pub fn index_to_point(i: u32) -> (r: CirclePoint)
    ensures
        r.wf(),
        r.view() == index_point(i as nat),
{
    CirclePoint::generator().mul((i % CIRCLE_ORDER) as u64)
}

/// The coset `initial + <step>` of `2^log_size` points, held by the indices of its initial
/// point and of its step.
#[derive(Clone, Copy, Debug, PartialEq, Eq)]
pub struct Coset {
    pub initial_index: u32,
    pub step_size: u32,
    pub log_size: u32,
}

impl Coset {
    pub open spec fn wf(self) -> bool {
        &&& 1 <= self.log_size <= LOG_CIRCLE_ORDER
        &&& self.initial_index < CIRCLE_ORDER
        &&& self.step_size == (CIRCLE_ORDER >> self.log_size)
    }

    /// The coset of `2^log_size` points from the point of index `initial_index`.
    pub fn new(initial_index: u32, log_size: u32) -> (r: Coset)
        requires
            1 <= log_size <= LOG_CIRCLE_ORDER,
        ensures
            r.wf(),
            r.initial_index == initial_index % CIRCLE_ORDER,
            r.log_size == log_size,
    {
        Coset {
            initial_index: initial_index % CIRCLE_ORDER,
            step_size: CIRCLE_ORDER >> log_size,
            log_size,
        }
    }

    /// The coset of the odd multiples of the generator of the subgroup of size
    /// `2^(log_size + 1)`: the canonic coset of `2^log_size` points.
    pub fn odds(log_size: u32) -> (r: Coset)
        requires
            1 <= log_size < LOG_CIRCLE_ORDER,
        ensures
            r.wf(),
            r == canonic_coset(log_size),
    {
        let init = CIRCLE_ORDER >> (log_size + 1);
        assert(1 <= log_size < 31 ==> (0x8000_0000u32 >> (log_size + 1) as u32) < 0x8000_0000u32) by (bit_vector);
        Coset::new(init, log_size)
    }

    /// The index of the point `i` of the coset: `initial + i * step`.
    pub fn index_at(&self, i: u32) -> (r: u32)
        requires
            self.wf(),
        ensures
            r as int == (self.initial_index as int + i as int * self.step_size as int) % (CIRCLE_ORDER as int),
    {
        let ls = self.log_size;
        assert((0x8000_0000u32 >> ls) <= 0x8000_0000u32) by (bit_vector);
        assert((i as u64) * (self.step_size as u64) <= 0xffff_ffffu64 * 0x8000_0000u64) by (nonlinear_arith)
            requires self.step_size <= 0x8000_0000u32;
        let prod: u64 = ((i as u64) * (self.step_size as u64)) % (CIRCLE_ORDER as u64);
        let r = ((self.initial_index as u64 + prod) % (CIRCLE_ORDER as u64)) as u32;
        proof {
            let m = CIRCLE_ORDER as int;
            vstd::arithmetic::div_mod::lemma_add_mod_noop_right(
                self.initial_index as int,
                i as int * self.step_size as int,
                m,
            );
        }
        r
    }

    /// The point `i` of the coset.
    pub fn at(&self, i: u32) -> (r: CirclePoint)
        requires
            self.wf(),
        ensures
            r.wf(),
            r.view() == index_point(
                ((self.initial_index as int + i as int * self.step_size as int) % (CIRCLE_ORDER as int)) as nat,
            ),
    {
        index_to_point(self.index_at(i))
    }
}

/// The canonic coset of `2^log_size` points: the odd multiples of the generator of the
/// subgroup of size `2^(log_size + 1)`.
pub open spec fn canonic_coset(log_size: u32) -> Coset {
    Coset {
        initial_index: (CIRCLE_ORDER >> (log_size + 1) as u32),
        step_size: (CIRCLE_ORDER >> log_size),
        log_size,
    }
}

/// The value at `p` of the vanishing polynomial of `coset`: `p` is moved by the inverse of the
/// coset's initial point and by half a step, and its `x` coordinate doubled `log_size - 1`
/// times.
pub open spec fn vanishing(coset: Coset, p: (int, int)) -> int {
    let init = index_point(coset.initial_index as nat);
    let moved = pt_add(pt_add(p, (init.0, (0 - init.1) % 0x7fff_ffff)), index_point((coset.step_size / 2) as nat));
    double_x_times(moved.0, (coset.log_size - 1) as nat)
}

/// The vanishing polynomial of `coset` at `p`: zero exactly on the points of the coset.
pub fn coset_vanishing(coset: Coset, p: CirclePoint) -> (r: M31)
    requires
        coset.wf(),
        p.wf(),
    ensures
        r.wf(),
        r.val() == vanishing(coset, p.view()),
{
    let moved = p.sub(index_to_point(coset.initial_index)).add(index_to_point(coset.step_size / 2));
    let mut x = moved.x;
    let mut k: u32 = 1;
    while k < coset.log_size
        invariant
            coset.wf(),
            1 <= k <= coset.log_size,
            x.wf(),
            double_x_times(x.val(), (coset.log_size - k) as nat) == vanishing(coset, p.view()),
        decreases coset.log_size - k,
    {
        x = CirclePoint::double_x(x);
        k = k + 1;
    }
    x
}

} // verus!
