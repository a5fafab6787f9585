//! Fractions in `[0, 1]` with a resolution of one billionth.
//!
//! The arithmetic itself is done by `sp_runtime::Perbill`; this module gives the
//! values a plain representation (the number of parts) and states what each
//! operation computes.
use vstd::arithmetic::div_mod::{lemma_fundamental_div_mod, lemma_fundamental_div_mod_converse};
use vstd::prelude::*;

verus! {

/// Number of parts that make up the whole.
pub const ACCURACY: u32 = 1_000_000_000;

/// Parts of one percent.
pub const PERCENT: u32 = 10_000_000;

/// The parts of the fraction that approximates `p / q` from below.
///
/// A zero `q` counts as one and `p` is capped at `q`. Both are first divided by
/// the least `factor` that brings `q` down to at most [`ACCURACY`], so that the
/// quotient is formed from numbers of at most that size.
pub open spec fn rational_parts(p: nat, q: nat) -> nat {
    let q = if q == 0 { 1 } else { q };
    let p = if p < q { p } else { q };
    let factor = if q % (ACCURACY as nat) == 0 {
        q / (ACCURACY as nat)
    } else {
        q / (ACCURACY as nat) + 1
    };
    (p / factor) * (ACCURACY as nat) / (q / factor)
}

/// The product of a value with a fraction of `parts` parts, rounded down, as it
/// is assembled from the whole multiples of [`ACCURACY`] in `x` and the rest.
pub open spec fn split_floor(parts: nat, x: nat) -> nat {
    (x / (ACCURACY as nat)) * parts + (x % (ACCURACY as nat)) * parts / (ACCURACY as nat)
}

/// Calls `sp_runtime::Perbill::from_percent` and hands back the parts of the
/// result: a hundredth of [`ACCURACY`] for each percent, with `x` capped at 100.
#[verifier::external_body]
fn perbill_from_percent(x: u32) -> (parts: u32)
    ensures
        parts == (if x > 100 { 100 } else { x as int }) * PERCENT,
{
    sp_runtime::Perbill::from_percent(x).deconstruct()
}

/// Calls `sp_runtime::Perbill::from_rational` on two `u128` values and hands back
/// the parts of the result: the denominator is raised to at least one, the
/// numerator capped at it, both are divided by the denominator's number of
/// started billions, and the parts are the quotient of what is left, rounded
/// down.
#[verifier::external_body]
fn perbill_from_rational(p: u128, q: u128) -> (parts: u32)
    ensures
        parts == rational_parts(p as nat, q as nat),
{
    sp_runtime::Perbill::from_rational(p, q).deconstruct()
}

/// Multiplies two `sp_runtime::Perbill` values with `*` and hands back the parts
/// of the product: the product of the parts divided by [`ACCURACY`], rounded down.
#[verifier::external_body]
fn perbill_mul(a: u32, b: u32) -> (parts: u32)
    requires
        a <= ACCURACY,
        b <= ACCURACY,
    ensures
        parts == (a * b) / (ACCURACY as int),
{
    (sp_runtime::Perbill::from_parts(a) * sp_runtime::Perbill::from_parts(b)).deconstruct()
}

/// Calls `sp_runtime::Perbill::mul_floor` on a `u128`: the whole multiples of
/// [`ACCURACY`] in `x` are scaled exactly, the rest is scaled and rounded down,
/// and the two are added.
#[verifier::external_body]
fn perbill_mul_floor(parts: u32, x: u128) -> (product: u128)
    requires
        parts <= ACCURACY,
    ensures
        product == split_floor(parts as nat, x as nat),
{
    sp_runtime::Perbill::from_parts(parts).mul_floor(x)
}

/// A fraction between zero and one, held as a number of parts out of
/// [`ACCURACY`].
#[derive(Clone, Copy, Debug, PartialEq, Eq, Structural)]
pub struct Ratio {
    parts: u32,
}

impl Ratio {
    #[verifier::type_invariant]
    spec fn bounded(self) -> bool {
        self.parts <= ACCURACY
    }

    /// The number of parts, out of [`ACCURACY`], that the fraction stands for.
    pub closed spec fn parts(self) -> nat {
        self.parts as nat
    }

    /// `x` percent, with `x` capped at 100.
    pub fn from_percent(x: u32) -> (ratio: Ratio)
        ensures
            ratio.parts() == (if x > 100 { 100 } else { x as nat }) * PERCENT,
            ratio.parts() <= ACCURACY,
    {
        Ratio { parts: perbill_from_percent(x) }
    }

    /// The fraction `p / q`, rounded down as [`rational_parts`] says.
    pub fn from_rational(p: u128, q: u128) -> (ratio: Ratio)
        ensures
            ratio.parts() == rational_parts(p as nat, q as nat),
            ratio.parts() <= ACCURACY,
    {
        proof {
            lemma_rational_parts_bounded(p as nat, q as nat);
        }
        Ratio { parts: perbill_from_rational(p, q) }
    }

    /// The number of parts, out of [`ACCURACY`].
    pub fn deconstruct(self) -> (parts: u32)
        ensures
            parts == self.parts(),
            parts <= ACCURACY,
    {
        proof {
            use_type_invariant(self);
        }
        self.parts
    }

    /// The product of two fractions, rounded down to a whole number of parts.
    pub fn times(self, rhs: Ratio) -> (product: Ratio)
        ensures
            product.parts() == self.parts() * rhs.parts() / (ACCURACY as nat),
            product.parts() <= ACCURACY,
    {
        proof {
            use_type_invariant(self);
            use_type_invariant(rhs);
            lemma_product_parts_bounded(self.parts as nat, rhs.parts as nat);
        }
        Ratio { parts: perbill_mul(self.parts, rhs.parts) }
    }

    /// This fraction of `x`, rounded down.
    pub fn mul_floor(self, x: u128) -> (product: u128)
        ensures
            product == self.parts() * (x as nat) / (ACCURACY as nat),
            product <= x,
    {
        proof {
            use_type_invariant(self);
            lemma_split_floor(self.parts as nat, x as nat);
            lemma_mul_floor_bounds(self.parts as nat, x as nat);
        }
        perbill_mul_floor(self.parts, x)
    }
}

/// [`rational_parts`] never exceeds [`ACCURACY`].
pub proof fn lemma_rational_parts_bounded(p: nat, q: nat)
    ensures
        rational_parts(p, q) <= ACCURACY,
{
    let acc = ACCURACY as nat;
    let bottom: nat = if q == 0 { 1 } else { q };
    let top: nat = if p < bottom { p } else { bottom };
    let factor: nat = if bottom % acc == 0 { bottom / acc } else { bottom / acc + 1 };
    lemma_fundamental_div_mod(bottom as int, acc as int);
    assert(1 <= factor <= bottom) by (nonlinear_arith)
        requires
            bottom >= 1,
            acc == 1_000_000_000,
            bottom == acc * (bottom / acc) + bottom % acc,
            0 <= bottom % acc < acc,
            factor == if bottom % acc == 0 { bottom / acc } else { bottom / acc + 1 },
    ;
    let a = top / factor;
    let b = bottom / factor;
    assert(a <= b && b >= 1) by (nonlinear_arith)
        requires
            top <= bottom,
            1 <= factor <= bottom,
            a == top / factor,
            b == bottom / factor,
    ;
    assert(a * acc / b <= acc) by (nonlinear_arith)
        requires
            a <= b,
            b >= 1,
    ;
}

/// A fraction of the whole is the whole: `q / q` is one for a positive `q`.
pub proof fn lemma_rational_parts_whole(q: nat)
    requires
        q > 0,
    ensures
        rational_parts(q, q) == ACCURACY,
{
    let acc = ACCURACY as nat;
    let factor: nat = if q % acc == 0 { q / acc } else { q / acc + 1 };
    lemma_fundamental_div_mod(q as int, acc as int);
    assert(1 <= factor <= q) by (nonlinear_arith)
        requires
            q >= 1,
            acc == 1_000_000_000,
            q == acc * (q / acc) + q % acc,
            0 <= q % acc < acc,
            factor == if q % acc == 0 { q / acc } else { q / acc + 1 },
    ;
    let b = q / factor;
    assert(b >= 1 && b * acc / b == acc) by (nonlinear_arith)
        requires
            1 <= factor <= q,
            b == q / factor,
    ;
}

/// The product of two fractions is a fraction.
pub proof fn lemma_product_parts_bounded(a: nat, b: nat)
    requires
        a <= ACCURACY,
        b <= ACCURACY,
    ensures
        a * b / (ACCURACY as nat) <= b,
        a * b / (ACCURACY as nat) <= a,
{
    let acc = ACCURACY as nat;
    assert(a * b / acc <= b && a * b / acc <= a) by (nonlinear_arith)
        requires
            a <= acc,
            b <= acc,
            acc == 1_000_000_000,
    ;
}

/// Scaling the whole multiples of [`ACCURACY`] and the rest of `x` apart gives the
/// product of `x` with the fraction, rounded down.
pub proof fn lemma_split_floor(parts: nat, x: nat)
    ensures
        split_floor(parts, x) == parts * x / (ACCURACY as nat),
{
    let acc = ACCURACY as int;
    let whole = x as int / acc;
    let rest = x as int % acc;
    let y = rest * parts;
    lemma_fundamental_div_mod(x as int, acc);
    lemma_fundamental_div_mod(y, acc);
    assert(y >= 0 && parts * x == (whole * parts + y / acc) * acc + y % acc) by (nonlinear_arith)
        requires
            x == acc * whole + rest,
            y == rest * parts,
            y == acc * (y / acc) + y % acc,
            rest >= 0,
    ;
    lemma_fundamental_div_mod_converse(
        (parts * x) as int,
        acc,
        whole * parts + y / acc,
        y % acc,
    );
}

/// The product of `x` with a fraction, rounded down, is no more than `x`, and
/// falls short of the exact product by less than one unit.
pub proof fn lemma_mul_floor_bounds(parts: nat, x: nat)
    requires
        parts <= ACCURACY,
    ensures
        parts * x / (ACCURACY as nat) <= x,
        (parts * x / (ACCURACY as nat)) * ACCURACY <= parts * x,
        parts * x < (parts * x / (ACCURACY as nat)) * ACCURACY + ACCURACY,
{
    let acc = ACCURACY as int;
    let n = (parts * x) as int;
    lemma_fundamental_div_mod(n, acc);
    assert(n <= acc * x) by (nonlinear_arith)
        requires
            n == parts * x,
            parts <= acc,
    ;
    assert(n / acc <= x && (n / acc) * acc == acc * (n / acc)) by (nonlinear_arith)
        requires
            n == acc * (n / acc) + n % acc,
            0 <= n % acc < acc,
            n <= acc * x,
            acc > 0,
    ;
}

/// The whole of `x` is `x`.
pub proof fn lemma_mul_floor_whole(x: nat)
    ensures
        (ACCURACY as nat) * x / (ACCURACY as nat) == x,
{
    let acc = ACCURACY as int;
    lemma_fundamental_div_mod_converse(acc * x, acc, x as int, 0);
}

} // verus!
