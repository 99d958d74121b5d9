//! A small prime field used as the trace's element type.
//!
//! The modulus is the Fermat prime 257, whose multiplicative group has order
//! 256 = 2^8, so the field supports power-of-two multiplicative subgroups up
//! to size 256. The small size keeps every inverse fact provable by
//! exhaustive computation, while the surrounding trace machinery treats the
//! element purely algebraically.

use vstd::prelude::*;

verus! {

use vstd::arithmetic::power::{pow, lemma_pow0};
use vstd::arithmetic::div_mod::lemma_mul_mod_noop_general;

/// The field modulus.
pub const P: u64 = 257;

/// 2^TWO_ADICITY is the largest power-of-two multiplicative subgroup order:
/// it divides P - 1 = 256.
pub const TWO_ADICITY: u32 = 8;

/// Field addition on residues.
pub open spec fn fadd(a: nat, b: nat) -> nat {
    (a + b) % (P as nat)
}

/// Field subtraction on residues.
pub open spec fn fsub(a: nat, b: nat) -> nat {
    ((((a % (P as nat)) + (P as nat) - (b % (P as nat))) as int) % (P as int)) as nat
}

/// Field multiplication on residues.
pub open spec fn fmul(a: nat, b: nat) -> nat {
    (a * b) % (P as nat)
}

/// Field exponentiation on residues, with reduction at every step.
pub open spec fn fexp(b: nat, e: nat) -> nat
    decreases e,
{
    if e == 0 {
        1
    } else {
        (fexp(b, (e - 1) as nat) * b) % (P as nat)
    }
}

/// The multiplicative inverse map: x^(P-2), which by Fermat's little theorem
/// inverts every non-zero residue (and sends zero to zero).
pub open spec fn finv(x: nat) -> nat {
    fexp(x, (P - 2) as nat)
}

/// `fexp` agrees with mathematical exponentiation followed by one reduction.
pub proof fn lemma_fexp_is_pow(b: nat, e: nat)
    ensures
        fexp(b, e) == pow(b as int, e) % (P as int),
    decreases e,
{
    if e == 0 {
        lemma_pow0(b as int);
    } else {
        lemma_fexp_is_pow(b, (e - 1) as nat);
        let prev = pow(b as int, (e - 1) as nat);
        reveal(pow);
        assert(pow(b as int, e) == b * prev);
        lemma_mul_mod_noop_general(prev, b as int, P as int);
        assert(((prev % (P as int)) * b) % (P as int) == (prev * b) % (P as int));
        assert(fexp(b, e) == (fexp(b, (e - 1) as nat) * b) % (P as nat));
        assert(fexp(b, (e - 1) as nat) as int == prev % (P as int));
        assert(b * prev == prev * b) by (nonlinear_arith);
    }
}

/// Squaring any non-zero residue eight times yields one: `x^(2^8) == x^(P-1)`
/// is one for every non-zero `x`, checked over the whole bounded domain by
/// the bit-vector solver.
#[verifier::rlimit(100)]
proof fn lemma_square_chain(
    x: u32,
    s1: u32,
    s2: u32,
    s3: u32,
    s4: u32,
    s5: u32,
    s6: u32,
    s7: u32,
    s8: u32,
)
    by (bit_vector)
    requires
        1 <= x < 257,
        s1 == (x * x) % 257,
        s2 == (s1 * s1) % 257,
        s3 == (s2 * s2) % 257,
        s4 == (s3 * s3) % 257,
        s5 == (s4 * s4) % 257,
        s6 == (s5 * s5) % 257,
        s7 == (s6 * s6) % 257,
        s8 == (s7 * s7) % 257,
    ensures
        s8 == 1,
{
}

/// Fermat's little theorem on this field: every non-zero residue times its
/// `finv` image is one.
pub proof fn lemma_finv_mul(x: nat)
    requires
        0 < x < P,
    ensures
        fmul(x, finv(x)) == 1,
{
    let s1 = fmul(x, x);
    let s2 = fmul(s1, s1);
    let s3 = fmul(s2, s2);
    let s4 = fmul(s3, s3);
    let s5 = fmul(s4, s4);
    let s6 = fmul(s5, s5);
    let s7 = fmul(s6, s6);
    let s8 = fmul(s7, s7);
    lemma_square_chain(
        x as u32,
        s1 as u32,
        s2 as u32,
        s3 as u32,
        s4 as u32,
        s5 as u32,
        s6 as u32,
        s7 as u32,
        s8 as u32,
    );
    // x^(2^8) telescopes through the squaring chain.
    lemma_fexp_even(x, 256);
    lemma_fexp_even(s1, 128);
    lemma_fexp_even(s2, 64);
    lemma_fexp_even(s3, 32);
    lemma_fexp_even(s4, 16);
    lemma_fexp_even(s5, 8);
    lemma_fexp_even(s6, 4);
    lemma_fexp_even(s7, 2);
    assert(fexp(x, 256) == fexp(s8, 1));
    assert(fexp(s8, 0) == 1);
    assert(fexp(s8, 1) == (fexp(s8, 0) * s8) % (P as nat));
    assert(s8 < P);
    assert(fexp(x, 256) == 1);
    // One more unrolling relates x^256 to x * x^255.
    assert(fexp(x, 256) == (fexp(x, 255) * x) % (P as nat));
    assert(x * fexp(x, 255) == fexp(x, 255) * x) by (nonlinear_arith);
    assert(fmul(x, finv(x)) == (x * fexp(x, 255)) % (P as nat));
}

/// An element of the prime field of order `P`.
#[derive(Clone, Copy, PartialEq, Eq, Structural, Debug)]
pub struct Felt {
    v: u64,
}

impl View for Felt {
    type V = nat;

    closed spec fn view(&self) -> nat {
        self.v as nat
    }
}

impl Felt {
    #[verifier::type_invariant]
    pub closed spec fn in_field(self) -> bool {
        self.v < P
    }

    /// The additive identity.
    pub fn zero() -> (r: Self)
        ensures
            r@ == 0,
    {
        Felt { v: 0 }
    }

    /// The multiplicative identity.
    pub fn one() -> (r: Self)
        ensures
            r@ == 1,
    {
        Felt { v: 1 }
    }

    /// Builds an element from an arbitrary integer by reduction.
    pub fn new(value: u64) -> (r: Self)
        ensures
            r@ == value as nat % (P as nat),
    {
        Felt { v: value % P }
    }

    /// Returns the reduced residue of this element.
    pub fn as_u64(&self) -> (r: u64)
        ensures
            r as nat == self@,
            r < P,
    {
        proof {
            use_type_invariant(*self);
        }
        self.v
    }

    /// Field addition.
    pub fn add(self, rhs: Self) -> (r: Self)
        ensures
            r@ == fadd(self@, rhs@),
    {
        proof {
            use_type_invariant(self);
            use_type_invariant(rhs);
        }
        Felt { v: (self.v + rhs.v) % P }
    }

    /// Field subtraction.
    pub fn sub(self, rhs: Self) -> (r: Self)
        ensures
            r@ == fsub(self@, rhs@),
    {
        proof {
            use_type_invariant(self);
            use_type_invariant(rhs);
        }
        Felt { v: (self.v + P - rhs.v) % P }
    }

    /// Field multiplication.
    pub fn mul(self, rhs: Self) -> (r: Self)
        ensures
            r@ == fmul(self@, rhs@),
    {
        proof {
            use_type_invariant(self);
            use_type_invariant(rhs);
            assert(self.v * rhs.v < 257 * 257) by (nonlinear_arith)
                requires
                    self.v < 257 && rhs.v < 257,
            ;
        }
        Felt { v: (self.v * rhs.v) % P }
    }

    /// Field exponentiation by square and multiply.
    pub fn exp(self, e: u64) -> (r: Self)
        ensures
            r@ == fexp(self@, e as nat),
    {
        proof {
            use_type_invariant(self);
        }
        let mut base = self;
        let mut result = Felt::one();
        let mut rem: u64 = e;
        proof {
            lemma_fexp_is_pow(self@, e as nat);
            lemma_fexp_is_pow(base@, rem as nat);
        }
        assert(fmul(result@, fexp(base@, rem as nat)) == fexp(self@, e as nat)) by {
            lemma_mul_mod_noop_general(1, fexp(base@, rem as nat) as int, P as int);
            lemma_fexp_reduced(base@, rem as nat);
        };
        while rem > 0
            invariant
                fmul(result@, fexp(base@, rem as nat)) == fexp(self@, e as nat),
            decreases rem,
        {
            proof {
                use_type_invariant(base);
                use_type_invariant(result);
            }
            if rem % 2 == 1 {
                proof {
                    lemma_fexp_split(result@, base@, rem as nat);
                }
                result = result.mul(base);
            } else {
                proof {
                    lemma_fexp_split_even(result@, base@, rem as nat);
                }
            }
            base = base.mul(base);
            rem = rem / 2;
        }
        proof {
            use_type_invariant(result);
            assert(fexp(base@, 0) == 1);
            lemma_fmul_one(result@);
        }
        result
    }

    /// Multiplicative inverse: `x^(P-2)`, which inverts every non-zero
    /// element and sends zero to zero.
    pub fn inverse(self) -> (r: Self)
        ensures
            r@ == finv(self@),
    {
        self.exp(P - 2)
    }
}

/// `fexp` output is always a reduced residue.
proof fn lemma_fexp_reduced(b: nat, e: nat)
    ensures
        fexp(b, e) < P,
{
    if e == 0 {
    }
}

/// Multiplying a reduced residue by one is a no-op under `fmul`.
proof fn lemma_fmul_one(a: nat)
    requires
        a < P,
    ensures
        fmul(a, 1) == a,
{
}

/// One square-and-multiply step for odd exponents.
proof fn lemma_fexp_split(acc: nat, b: nat, e: nat)
    requires
        e % 2 == 1,
    ensures
        fmul(fmul(acc, b), fexp(fmul(b, b), e / 2)) == fmul(acc, fexp(b, e)),
{
    lemma_fexp_odd(b, e);
    let t = fexp(fmul(b, b), e / 2);
    // fmul(fmul(acc, b), t) == ((acc*b) % P * t) % P == (acc*b*t) % P
    lemma_mul_mod_noop_general((acc * b) as int, t as int, P as int);
    // fmul(acc, fexp(b, e)) == (acc * ((b * t) % P)) % P == (acc*(b*t)) % P
    lemma_mul_mod_noop_general(acc as int, (b * t) as int, P as int);
    assert(acc * b * t == acc * (b * t)) by (nonlinear_arith);
}

/// One squaring step for even exponents.
proof fn lemma_fexp_split_even(acc: nat, b: nat, e: nat)
    requires
        e % 2 == 0,
        e > 0,
    ensures
        fmul(acc, fexp(fmul(b, b), e / 2)) == fmul(acc, fexp(b, e)),
{
    lemma_fexp_even(b, e);
}

/// For even exponents, exponentiation can square the base and halve the
/// exponent.
proof fn lemma_fexp_even(b: nat, e: nat)
    requires
        e % 2 == 0,
    ensures
        fexp(b, e) == fexp(fmul(b, b), e / 2),
    decreases e,
{
    if e > 0 {
        lemma_fexp_even(b, (e - 2) as nat);
        // fexp(b, e) == (fexp(b, e-2) * b % P) * b % P == fexp(b, e-2) * (b*b) % P
        let s = fexp(b, (e - 2) as nat);
        assert(fexp(b, (e - 1) as nat) == (s * b) % (P as nat));
        lemma_mul_mod_noop_general((s * b) as int, b as int, P as int);
        assert(s * b * b == s * (b * b)) by (nonlinear_arith);
        // fexp(b*b % P, e/2) == fexp(b*b % P, e/2 - 1) * (b*b % P) % P
        let bb = fmul(b, b);
        assert(e / 2 == (e - 2) / 2 + 1);
        assert(fexp(bb, e / 2) == (fexp(bb, (e / 2 - 1) as nat) * bb) % (P as nat));
        lemma_mul_mod_noop_general(s as int, (b * b) as int, P as int);
    }
}

/// For odd exponents, exponentiation peels one factor of the base, then
/// squares and halves.
proof fn lemma_fexp_odd(b: nat, e: nat)
    requires
        e % 2 == 1,
    ensures
        fexp(b, e) == fmul(b, fexp(fmul(b, b), e / 2)),
{
    lemma_fexp_even(b, (e - 1) as nat);
    let t = fexp(fmul(b, b), e / 2);
    assert((e - 1) / 2 == e / 2);
    assert(fexp(b, e) == (fexp(b, (e - 1) as nat) * b) % (P as nat));
    lemma_mul_mod_noop_general(t as int, b as int, P as int);
    lemma_mul_mod_noop_general(b as int, t as int, P as int);
    assert(t * b == b * t) by (nonlinear_arith);
}

} // verus!
