//! The algebra behind the auxiliary segment's permutation argument: a
//! running product of shifted numerators over shifted denominators, and the
//! law that it telescopes to one whenever the two inputs are permutations of
//! each other. (The converse — that a non-permutation leaves the product
//! away from one — holds only with high probability over the random shift,
//! so it is exercised by tests rather than stated as a law.)

use vstd::prelude::*;

verus! {

use crate::field::{P, fadd, fmul, finv, lemma_finv_mul};

/// The running product after `m` steps: step `i` multiplies by
/// `(a[i] + r)` and by the inverse of `(b[i] + r)`.
pub open spec fn running_product(a: Seq<nat>, b: Seq<nat>, r: nat, m: int) -> nat
    decreases m,
{
    if m <= 0 {
        1
    } else {
        fmul(fmul(running_product(a, b, r, m - 1), fadd(a[m - 1], r)), finv(fadd(b[m - 1], r)))
    }
}

/// The product of `(s[i] + r)` over a sequence.
pub open spec fn shifted_product(s: Seq<nat>, r: nat) -> nat
    decreases s.len(),
{
    if s.len() == 0 {
        1
    } else {
        fmul(shifted_product(s.drop_last(), r), fadd(s.last(), r))
    }
}

/// The product of the inverses of `(s[i] + r)` over a sequence.
pub open spec fn shifted_inv_product(s: Seq<nat>, r: nat) -> nat
    decreases s.len(),
{
    if s.len() == 0 {
        1
    } else {
        fmul(shifted_inv_product(s.drop_last(), r), finv(fadd(s.last(), r)))
    }
}

/// Every product value is a reduced residue.
proof fn lemma_products_reduced(s: Seq<nat>, r: nat)
    ensures
        shifted_product(s, r) < P,
        shifted_inv_product(s, r) < P,
    decreases s.len(),
{
    if s.len() == 0 {
    } else {
        lemma_products_reduced(s.drop_last(), r);
    }
}

/// Four-way regrouping of field products:
/// `((n*d)*x)*y == (n*x)*(d*y)` under `fmul`.
proof fn lemma_fmul_regroup(n: nat, d: nat, x: nat, y: nat)
    ensures
        fmul(fmul(fmul(n, d), x), y) == fmul(fmul(n, x), fmul(d, y)),
{
    let p = P as int;
    assert(fmul(fmul(fmul(n, d), x), y) == ((n * d * x * y) as int % p) as nat) by {
        vstd::arithmetic::div_mod::lemma_mul_mod_noop_general((n * d) as int, x as int, p);
        vstd::arithmetic::div_mod::lemma_mul_mod_noop_general((n * d * x) as int, y as int, p);
        assert((n * d) * x == n * d * x && (n * d * x) * y == n * d * x * y) by (nonlinear_arith);
    };
    assert(fmul(fmul(n, x), fmul(d, y)) == ((n * d * x * y) as int % p) as nat) by {
        vstd::arithmetic::div_mod::lemma_mul_mod_noop_general((n * x) as int, (d * y) as int, p);
        assert((n * x) * (d * y) == n * d * x * y) by (nonlinear_arith);
    };
}

/// Three-way swap of field products: `(x*y)*z == (x*z)*y` under `fmul`.
proof fn lemma_fmul_swap(x: nat, y: nat, z: nat)
    ensures
        fmul(fmul(x, y), z) == fmul(fmul(x, z), y),
{
    let p = P as int;
    assert(fmul(fmul(x, y), z) == ((x * y * z) as int % p) as nat) by {
        vstd::arithmetic::div_mod::lemma_mul_mod_noop_general((x * y) as int, z as int, p);
        assert((x * y) * z == x * y * z) by (nonlinear_arith);
    };
    assert(fmul(fmul(x, z), y) == ((x * y * z) as int % p) as nat) by {
        vstd::arithmetic::div_mod::lemma_mul_mod_noop_general((x * z) as int, y as int, p);
        assert((x * z) * y == x * y * z) by (nonlinear_arith);
    };
}

/// Multiplying a reduced residue by one under `fmul` is the identity.
proof fn lemma_fmul_one_reduced(x: nat)
    requires
        x < P,
    ensures
        fmul(x, 1) == x,
{
}

/// The running product factors into the two one-sided products.
proof fn lemma_running_product_factors(a: Seq<nat>, b: Seq<nat>, r: nat, m: int)
    requires
        0 <= m <= a.len(),
        m <= b.len(),
    ensures
        running_product(a, b, r, m) == fmul(
            shifted_product(a.take(m), r),
            shifted_inv_product(b.take(m), r),
        ),
    decreases m,
{
    if m == 0 {
        assert(a.take(0).len() == 0 && b.take(0).len() == 0);
        assert(fmul(1, 1) == 1nat % (P as nat));
    } else {
        lemma_running_product_factors(a, b, r, m - 1);
        let np = shifted_product(a.take(m - 1), r);
        let dp = shifted_inv_product(b.take(m - 1), r);
        let x = fadd(a[m - 1], r);
        let y = finv(fadd(b[m - 1], r));
        assert(a.take(m).drop_last() =~= a.take(m - 1));
        assert(b.take(m).drop_last() =~= b.take(m - 1));
        assert(a.take(m).last() == a[m - 1]);
        assert(b.take(m).last() == b[m - 1]);
        assert(shifted_product(a.take(m), r) == fmul(np, x));
        assert(shifted_inv_product(b.take(m), r) == fmul(dp, y));
        lemma_fmul_regroup(np, dp, x, y);
    }
}

/// Removing one element factors out its term from the inverse product.
proof fn lemma_shifted_inv_product_remove(s: Seq<nat>, r: nat, j: int)
    requires
        0 <= j < s.len(),
    ensures
        shifted_inv_product(s, r) == fmul(
            shifted_inv_product(s.remove(j), r),
            finv(fadd(s[j], r)),
        ),
    decreases s.len(),
{
    if j == s.len() - 1 {
        assert(s.remove(j) =~= s.drop_last());
    } else {
        let t = s.drop_last();
        lemma_shifted_inv_product_remove(t, r, j);
        let x = shifted_inv_product(t.remove(j), r);
        let fj = finv(fadd(t[j], r));
        let fl = finv(fadd(s.last(), r));
        // s:          prod = (prod(t)) * fl = ((x * fj) * fl)
        assert(shifted_inv_product(s, r) == fmul(fmul(x, fj), fl));
        lemma_fmul_swap(x, fj, fl);
        // s.remove(j): drop_last of it is t.remove(j), last is s.last()
        assert(s.remove(j).drop_last() =~= t.remove(j));
        assert(s.remove(j).last() == s.last());
        assert(shifted_inv_product(s.remove(j), r) == fmul(x, fl));
        assert(s[j] == t[j]);
    }
}

/// If two sequences hold the same values as multisets, and no shifted
/// denominator vanishes, the product of the shifted values of one times the
/// product of the inverted shifted values of the other is one.
proof fn lemma_paired_products_cancel(a: Seq<nat>, b: Seq<nat>, r: nat)
    requires
        a.to_multiset() == b.to_multiset(),
        forall|i: int| 0 <= i < b.len() ==> fadd(#[trigger] b[i], r) != 0,
    ensures
        fmul(shifted_product(a, r), shifted_inv_product(b, r)) == 1,
    decreases a.len(),
{
    broadcast use vstd::seq_lib::group_seq_properties;

    a.to_multiset_ensures();
    b.to_multiset_ensures();
    if a.len() == 0 {
        assert(b.to_multiset().len() == 0);
        assert(b.len() == 0);
        assert(fmul(1, 1) == 1nat % (P as nat));
    } else {
        let x = a.last();
        assert(a.contains(x));
        assert(a.to_multiset().count(x) > 0);
        assert(b.to_multiset().count(x) > 0);
        assert(b.contains(x));
        let j = choose|j: int| 0 <= j < b.len() && b[j] == x;
        let a1 = a.drop_last();
        let b1 = b.remove(j);
        // Multisets still agree after removing one occurrence of `x`.
        assert(a1 =~= a.remove(a.len() - 1));
        assert(a1.to_multiset() =~= a.to_multiset().remove(x));
        assert(b1.to_multiset() =~= b.to_multiset().remove(x));
        assert(a1.to_multiset() == b1.to_multiset());
        assert(forall|i: int| 0 <= i < b1.len() ==> fadd(#[trigger] b1[i], r) != 0) by {
            assert(forall|i: int|
                0 <= i < b1.len() ==> #[trigger] b1[i] == (if i < j {
                    b[i]
                } else {
                    b[i + 1]
                }));
        };
        lemma_paired_products_cancel(a1, b1, r);
        let np = shifted_product(a1, r);
        let dp = shifted_inv_product(b1, r);
        let t = fadd(x, r);
        lemma_shifted_inv_product_remove(b, r, j);
        assert(shifted_product(a, r) == fmul(np, t));
        assert(shifted_inv_product(b, r) == fmul(dp, finv(t)));
        lemma_fmul_regroup(np, dp, t, finv(t));
        // The paired term cancels by Fermat's little theorem.
        assert(t != 0) by {
            assert(fadd(b[j], r) != 0);
        };
        assert(t < P);
        lemma_finv_mul(t);
        assert(fmul(t, finv(t)) == 1);
        lemma_products_reduced(a1, r);
        lemma_products_reduced(b1, r);
        assert(fmul(np, dp) == 1);
        assert(fmul(fmul(np, dp), fmul(t, finv(t))) == fmul(1, 1));
        assert(fmul(1, 1) == 1nat % (P as nat));
    }
}

/// The permutation-argument law: when the two bus inputs hold the same
/// values as multisets and no shifted denominator vanishes, the running
/// product over all steps telescopes to the multiplicative identity.
pub proof fn lemma_running_product_permutation(a: Seq<nat>, b: Seq<nat>, r: nat)
    requires
        a.len() == b.len(),
        a.to_multiset() == b.to_multiset(),
        forall|i: int| 0 <= i < b.len() ==> fadd(#[trigger] b[i], r) != 0,
    ensures
        running_product(a, b, r, a.len() as int) == 1,
{
    lemma_running_product_factors(a, b, r, a.len() as int);
    assert(a.take(a.len() as int) =~= a);
    assert(b.take(b.len() as int) =~= b);
    lemma_paired_products_cancel(a, b, r);
}

/// The form of the permutation law that applies directly to an auxiliary
/// segment's columns: if the first `m` bus entries on either side hold the
/// same values as multisets, the running product after `m` steps — the value
/// the product column holds at row `m` — is the multiplicative identity.
pub proof fn lemma_aux_terminal_value(bus0: Seq<nat>, bus1: Seq<nat>, r: nat, m: int)
    requires
        0 <= m <= bus0.len(),
        m <= bus1.len(),
        bus0.take(m).to_multiset() == bus1.take(m).to_multiset(),
        forall|i: int| 0 <= i < m ==> fadd(#[trigger] bus1[i], r) != 0,
    ensures
        running_product(bus0, bus1, r, m) == 1,
{
    let a = bus0.take(m);
    let b = bus1.take(m);
    assert(forall|i: int| 0 <= i < b.len() ==> fadd(#[trigger] b[i], r) != 0) by {
        assert(forall|i: int| 0 <= i < m ==> b[i] == #[trigger] bus1[i]);
    };
    lemma_running_product_permutation(a, b, r);
    lemma_running_product_prefix(a, b, bus0, bus1, r, m);
}

/// The running product after `m` steps reads only the first `m` entries of
/// either sequence.
pub proof fn lemma_running_product_prefix(a1: Seq<nat>, b1: Seq<nat>, a2: Seq<nat>, b2: Seq<nat>, r: nat, m: int)
    requires
        forall|k: int| 0 <= k < m ==> a1[k] == a2[k] && b1[k] == b2[k],
    ensures
        running_product(a1, b1, r, m) == running_product(a2, b2, r, m),
    decreases m,
{
    if m > 0 {
        lemma_running_product_prefix(a1, b1, a2, b2, r, m - 1);
    }
}

} // verus!
