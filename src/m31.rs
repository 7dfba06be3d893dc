use vstd::prelude::*;
use vstd::arithmetic::div_mod::{lemma_mul_mod_noop_left, lemma_mul_mod_noop_right, lemma_sub_mod_noop, lemma_mod_twice};

verus! {

/// The modulus of the base field, `2^31 - 1`.
pub const P: u32 = 2147483647;

/// `x` has a multiplicative inverse modulo `P`.
pub open spec fn is_invertible(x: int) -> bool {
    exists|y: int| #[trigger] ((x * y) % (P as int)) == 1
}

/// An element of the base field, held in canonical form.
#[derive(Clone, Copy, Debug, PartialEq, Eq)]
pub struct M31 {
    pub value: u32,
}

impl M31 {
    pub open spec fn wf(self) -> bool {
        self.value < P
    }

    /// The element as an integer in `[0, P)`.
    pub open spec fn val(self) -> int {
        self.value as int
    }

    pub fn zero() -> (r: M31)
        ensures
            r.wf(),
            r.val() == 0,
    {
        M31 { value: 0 }
    }

    pub fn one() -> (r: M31)
        ensures
            r.wf(),
            r.val() == 1,
    {
        M31 { value: 1 }
    }

    /// The element `v mod P`.
    pub fn reduce(v: u32) -> (r: M31)
        ensures
            r.wf(),
            r.val() == v as int % (P as int),
    {
        M31 { value: v % P }
    }

    pub fn from_u32_unchecked(v: u32) -> (r: M31)
        requires
            v < P,
        ensures
            r.wf(),
            r.val() == v,
    {
        M31 { value: v }
    }

    pub fn add(self, o: M31) -> (r: M31)
        requires
            self.wf(),
            o.wf(),
        ensures
            r.wf(),
            r.val() == (self.val() + o.val()) % (P as int),
    {
        let s: u32 = self.value + o.value;
        if s >= P {
            M31 { value: s - P }
        } else {
            M31 { value: s }
        }
    }

    pub fn sub(self, o: M31) -> (r: M31)
        requires
            self.wf(),
            o.wf(),
        ensures
            r.wf(),
            r.val() == (self.val() - o.val()) % (P as int),
    {
        if self.value >= o.value {
            M31 { value: self.value - o.value }
        } else {
            M31 { value: self.value + (P - o.value) }
        }
    }

    pub fn neg(self) -> (r: M31)
        requires
            self.wf(),
        ensures
            r.wf(),
            r.val() == (0 - self.val()) % (P as int),
    {
        M31::zero().sub(self)
    }

    pub fn mul(self, o: M31) -> (r: M31)
        requires
            self.wf(),
            o.wf(),
        ensures
            r.wf(),
            r.val() == (self.val() * o.val()) % (P as int),
    {
        assert((self.value as u64) * (o.value as u64) < 0x4000_0000_0000_0000u64) by (nonlinear_arith)
            requires self.value < P, o.value < P;
        let prod: u64 = (self.value as u64) * (o.value as u64);
        M31 { value: (prod % (P as u64)) as u32 }
    }

    pub fn square(self) -> (r: M31)
        requires
            self.wf(),
        ensures
            r.wf(),
            r.val() == (self.val() * self.val()) % (P as int),
    {
        self.mul(self)
    }

    /// The multiplicative inverse, by the extended Euclidean algorithm on `(P, self)`.
    pub fn inverse(self) -> (r: M31)
        requires
            self.wf(),
            self.val() != 0,
        ensures
            r.wf(),
            (self.val() * r.val()) % (P as int) == 1,
            r.val() == finv(self.val()),
    {
        proof {
            lemma_nonzero_invertible(self.val());
        }
        let (g, r) = self.inverse_euclid();
        proof {
            lemma_finv_unique(self.val(), r.val());
        }
        r
    }

    /// The inverse where there is one, and `None` where there is none.
    pub fn try_inverse(self) -> (r: Option<M31>)
        requires
            self.wf(),
        ensures
            r.is_some() <==> self.val() != 0,
            r matches Some(y) ==> y.wf() && (self.val() * y.val()) % (P as int) == 1 && y.val() == finv(self.val()),
    {
        proof {
            lemma_invertible_iff_nonzero(self.val());
        }
        let (g, s) = self.inverse_euclid();
        if g == 1 {
            proof {
                assert((self.val() * s.val()) % (P as int) == 1);
                lemma_finv_unique(self.val(), s.val());
            }
            Some(s)
        } else {
            None
        }
    }

    /// The greatest common divisor `g` of `P` and `self`, and `s` with `self * s == g (mod P)`;
    /// `g` is one exactly when `self` is invertible.
    fn inverse_euclid(self) -> (r: (u32, M31))
        requires
            self.wf(),
        ensures
            r.1.wf(),
            (self.val() * r.1.val()) % (P as int) == (r.0 as int) % (P as int),
            r.0 == 1 <==> is_invertible(self.val()),
    {
        let ghost x = self.val();
        let ghost p = P as int;
        let mut r0: u32 = P;
        let mut r1: u32 = self.value;
        let mut s0 = M31::zero();
        let mut s1 = M31::one();
        let ghost mut a0: int = 0;
        let ghost mut a1: int = 1;
        let ghost mut b0: int = 1;
        let ghost mut b1: int = 0;
        proof {
            assert((x * 0) % p == (P as int) % p) by (nonlinear_arith)
                requires p == P as int, p > 0;
            assert((x * 1) % p == x % p) by (nonlinear_arith);
        }
        while r1 != 0
            invariant
                x == self.val(),
                p == P as int,
                r0 > 0,
                s0.wf(),
                s1.wf(),
                (x * s0.val()) % p == (r0 as int) % p,
                (x * s1.val()) % p == (r1 as int) % p,
                x == a0 * r0 + a1 * r1,
                p == b0 * r0 + b1 * r1,
            decreases r1,
        {
            let q: u32 = r0 / r1;
            let rem: u32 = r0 % r1;
            let qm = M31::reduce(q);
            let s_new = s0.sub(qm.mul(s1));
            proof {
                let (r0i, r1i, qi) = (r0 as int, r1 as int, q as int);
                assert(r0i == qi * r1i + rem as int) by (nonlinear_arith)
                    requires qi == r0i / r1i, rem as int == r0i % r1i, r1i > 0;
                lemma_step(x, s0.val(), s1.val(), r0i, r1i, qi, p);
                lemma_mul_mod_noop_right(qi, s1.val(), p);
                assert(qm.val() * s1.val() % p == (qi * s1.val()) % p) by {
                    lemma_mul_mod_noop_right(s1.val(), qi, p);
                    assert(qm.val() * s1.val() == s1.val() * (qi % p)) by (nonlinear_arith)
                        requires qm.val() == qi % p;
                    assert(s1.val() * qi == qi * s1.val()) by (nonlinear_arith);
                }
                lemma_sub_mod_noop(s0.val(), qi * s1.val(), p);
                lemma_mod_twice(s0.val(), p);
                assert(s_new.val() == (s0.val() - qi * s1.val()) % p);
                assert(x == (a0 * qi + a1) * r1i + a0 * (rem as int)) by (nonlinear_arith)
                    requires x == a0 * r0i + a1 * r1i, r0i == qi * r1i + rem as int;
                assert(p == (b0 * qi + b1) * r1i + b0 * (rem as int)) by (nonlinear_arith)
                    requires p == b0 * r0i + b1 * r1i, r0i == qi * r1i + rem as int;
                let (na0, nb0) = (a0 * qi + a1, b0 * qi + b1);
                a1 = a0;
                a0 = na0;
                b1 = b0;
                b0 = nb0;
            }
            r0 = r1;
            r1 = rem;
            s0 = s1;
            s1 = s_new;
        }
        proof {
            if is_invertible(x) {
                let y = choose|y: int| #[trigger] ((x * y) % p) == 1;
                lemma_gcd_one(x, y, p, r0 as int, a0, b0);
            }
            if r0 == 1 {
                assert((x * s0.val()) % p == 1);
            }
        }
        (r0, s0)
    }
}

/// One step of the extended Euclidean algorithm keeps `x * s == r (mod p)`.
proof fn lemma_step(x: int, s0: int, s1: int, r0: int, r1: int, q: int, p: int)
    requires
        p > 0,
        (x * s0) % p == r0 % p,
        (x * s1) % p == r1 % p,
    ensures
        (x * ((s0 - q * s1) % p)) % p == (r0 - q * r1) % p,
{
    lemma_mul_mod_noop_right(x, s0 - q * s1, p);
    assert(x * (s0 - q * s1) == x * s0 - q * (x * s1)) by (nonlinear_arith);
    lemma_sub_mod_noop(x * s0, q * (x * s1), p);
    lemma_mul_mod_noop_right(q, x * s1, p);
    lemma_mul_mod_noop_right(q, r1, p);
    lemma_sub_mod_noop(r0, q * r1, p);
}

/// The inverse of `d` in `[0, P)`, where there is one.
pub open spec fn finv(d: int) -> int {
    choose|y: int| 0 <= y < P as int && #[trigger] fmul(d, y) == 1
}

/// An inverse in `[0, P)` is the one that `finv` names.
pub proof fn lemma_finv_unique(d: int, y: int)
    requires
        0 <= y < P as int,
        (d * y) % (P as int) == 1,
    ensures
        fmul(d, finv(d)) == 1,
        0 <= finv(d) < P as int,
        finv(d) == y,
{
    let p = P as int;
    assert(fmul(d, y) == 1);
    let z = finv(d);
    assert(0 <= z < p && fmul(d, z) == 1);
    // y == y * (d * z) == (y * d) * z == z (mod p)
    lemma_mul_mod_noop_right(y, d * z, p);
    lemma_mul_mod_noop_left(y * d, z, p);
    assert(y * (d * z) == (y * d) * z) by (nonlinear_arith);
    assert(y * d == d * y) by (nonlinear_arith);
    vstd::arithmetic::div_mod::lemma_small_mod(y as nat, p as nat);
    vstd::arithmetic::div_mod::lemma_small_mod(z as nat, p as nat);
}

/// When `g` divides both `x` and `p`, and `x` is invertible modulo `p`, then `g` is one.
proof fn lemma_gcd_one(x: int, y: int, p: int, g: int, a: int, b: int)
    requires
        p > 1,
        g > 0,
        (x * y) % p == 1,
        x == a * g,
        p == b * g,
    ensures
        g == 1,
{
    let k = (x * y) / p;
    assert(x * y == k * p + 1) by (nonlinear_arith)
        requires (x * y) % p == 1, k == (x * y) / p, p > 1;
    assert(g * (a * y - k * b) == 1) by (nonlinear_arith)
        requires x * y == k * p + 1, x == a * g, p == b * g;
    assert(g == 1) by (nonlinear_arith)
        requires g * (a * y - k * b) == 1, g > 0;
}

} // verus!

verus! {

/// Field addition on canonical integers.
pub open spec fn fadd(a: int, b: int) -> int {
    (a + b) % (P as int)
}

/// Field subtraction on canonical integers.
pub open spec fn fsub(a: int, b: int) -> int {
    (a - b) % (P as int)
}

/// Field multiplication on canonical integers.
pub open spec fn fmul(a: int, b: int) -> int {
    (a * b) % (P as int)
}

/// `r^e` in the field.
pub open spec fn fpow(r: int, e: nat) -> int
    decreases e,
{
    if e == 0 {
        1
    } else {
        fmul(fpow(r, (e - 1) as nat), r)
    }
}

} // verus!

verus! {

/// No integer in `[2, 46341]`, past the square root of `P`, divides `P`.
#[verifier::rlimit(100)]
proof fn lemma_trial_division()
    ensures
        forall|a: u32| 2 <= a <= 46341 ==> #[trigger] (2147483647u32 % a) != 0,
{
    assert(forall|a: u32| 2 <= a <= 46341 ==> #[trigger] (2147483647u32 % a) != 0) by (bit_vector);
}

/// The greatest common divisor `g` of `a` and `b` with `g == a * s + b * t`, and the
/// cofactors `ka`, `kb` with `a == g * ka` and `b == g * kb`.
pub open spec fn gcd_ext(a: int, b: int) -> (int, int, int, int, int)
    decreases b,
    when b >= 0
{
    if b == 0 {
        (a, 1, 0, 1, 0)
    } else {
        let (g, s, t, kb, kr) = gcd_ext(b, a % b);
        (g, t, s - (a / b) * t, (a / b) * kb + kr, kb)
    }
}

proof fn lemma_gcd_ext(a: int, b: int)
    requires
        a > 0,
        b >= 0,
    ensures
        ({
            let (g, s, t, ka, kb) = gcd_ext(a, b);
            &&& g > 0
            &&& g == a * s + b * t
            &&& a == g * ka
            &&& b == g * kb
        }),
    decreases b,
{
    if b > 0 {
        let q = a / b;
        let r = a % b;
        lemma_gcd_ext(b, r);
        let (g, s, t, kb, kr) = gcd_ext(b, r);
        assert(a == q * b + r) by (nonlinear_arith)
            requires q == a / b, r == a % b, b > 0;
        assert(g == a * t + b * (s - q * t)) by (nonlinear_arith)
            requires g == b * s + r * t, a == q * b + r;
        assert(a == g * (q * kb + kr)) by (nonlinear_arith)
            requires b == g * kb, r == g * kr, a == q * b + r;
        assert(gcd_ext(a, b) == (g, t, s - q * t, q * kb + kr, kb));
    } else {
        assert(a == a * 1 + b * 0 && a == a * 1 && b == a * 0) by (nonlinear_arith)
            requires b == 0;
    }
}

/// A divisor of `P` in `[2, P)` would have a cofactor in that range too, and one of the two
/// would be at most `46341`.
proof fn lemma_no_proper_divisor(g: int, k: int)
    requires
        2 <= g < P as int,
    ensures
        P as int != g * k,
{
    if P as int == g * k {
        lemma_no_proper_divisor_contra(g, k);
    }
}

proof fn lemma_no_proper_divisor_contra(g: int, k: int)
    requires
        2 <= g < P as int,
        P as int == g * k,
    ensures
        g < 2,
{
    lemma_trial_division();
    assert(k >= 2) by (nonlinear_arith)
        requires P as int == g * k, 2 <= g < P as int;
    if g <= 46341 {
        let gu = g as u32;
        assert((2147483647u32 % gu) as int == (P as int) % g);
        assert((P as int) % g == 0) by (nonlinear_arith)
            requires P as int == g * k, g > 0;
    } else {
        assert(k <= 46341) by (nonlinear_arith)
            requires P as int == g * k, g > 46341, k >= 2;
        let ku = k as u32;
        assert((2147483647u32 % ku) as int == (P as int) % k);
        assert((P as int) % k == 0) by (nonlinear_arith)
            requires P as int == g * k, k > 0;
    }
}

/// An element of the field has an inverse exactly when it is nonzero.
pub proof fn lemma_invertible_iff_nonzero(x: int)
    requires
        0 <= x < P as int,
    ensures
        is_invertible(x) <==> x != 0,
{
    if x == 0 {
        assert forall|y: int| #[trigger] ((x * y) % (P as int)) != 1 by {
            assert(x * y == 0);
        }
    } else {
        lemma_nonzero_invertible(x);
    }
}

/// Every nonzero element of the field has an inverse: `P` is prime.
pub proof fn lemma_nonzero_invertible(x: int)
    requires
        0 < x < P as int,
    ensures
        is_invertible(x),
{
    let p = P as int;
    lemma_gcd_ext(p, x);
    let (g, s, t, kp, kx) = gcd_ext(p, x);
    assert(g <= x) by (nonlinear_arith)
        requires x == g * kx, g > 0, x > 0;
    if g >= 2 {
        lemma_no_proper_divisor(g, kp);
    }
    assert(g == 1);
    assert((x * t) % p == 1) by (nonlinear_arith)
        requires 1 == p * s + x * t, p == P as int;
    assert(((x * t) % p) == 1);
}

} // verus!
