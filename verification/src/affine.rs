//! Affine maps on the integers modulo two to the power 128, their powers, and
//! the algebra that a jump over many steps rests on.

use vstd::arithmetic::div_mod::*;
use vstd::prelude::*;

verus! {

/// The modulus of all state arithmetic: two to the power 128.
pub open spec fn modulus() -> int {
    u128::MAX + 1
}

/// The map `x -> mult * x + plus`, taken modulo `modulus()`.
pub struct Affine {
    pub mult: u128,
    pub plus: u128,
}

impl Affine {
    /// The map that changes nothing.
    pub open spec fn identity() -> Affine {
        Affine { mult: 1, plus: 0 }
    }

    /// The image of `x`.
    pub open spec fn apply(self, x: u128) -> u128 {
        ((self.mult * x + self.plus) % modulus()) as u128
    }

    /// The map that applies `first` and then `self`.
    pub open spec fn after(self, first: Affine) -> Affine {
        Affine {
            mult: ((self.mult * first.mult) % modulus()) as u128,
            plus: ((self.mult * first.plus + self.plus) % modulus()) as u128,
        }
    }

    /// The map applied `n` times over, as one map.
    pub open spec fn pow(self, n: nat) -> Affine
        decreases n,
    {
        if n == 0 {
            Affine::identity()
        } else {
            self.after(self.pow((n - 1) as nat))
        }
    }

    /// The value reached from `x` by applying the map `n` times, one at a time.
    pub open spec fn iterate(self, x: u128, n: nat) -> u128
        decreases n,
    {
        if n == 0 {
            x
        } else {
            self.apply(self.iterate(x, (n - 1) as nat))
        }
    }
}

/// Reducing the second factor of a product first changes nothing modulo `m`.
pub proof fn lemma_mul_add_mod_right(a: int, b: int, c: int, m: int)
    requires
        m > 0,
    ensures
        (a * (b % m) + c) % m == (a * b + c) % m,
{
    lemma_mul_mod_noop_right(a, b, m);
    lemma_add_mod_noop(a * (b % m), c, m);
    lemma_add_mod_noop(a * b, c, m);
}

/// Reducing the first factor of a product first changes nothing modulo `m`.
pub proof fn lemma_mul_add_mod_left(a: int, b: int, c: int, m: int)
    requires
        m > 0,
    ensures
        ((a % m) * b + c) % m == (a * b + c) % m,
{
    lemma_mul_mod_noop_left(a, b, m);
    lemma_add_mod_noop((a % m) * b, c, m);
    lemma_add_mod_noop(a * b, c, m);
}

/// Applying a composed map is applying its two parts in turn.
pub proof fn lemma_after_apply(f: Affine, g: Affine, x: u128)
    ensures
        f.after(g).apply(x) == f.apply(g.apply(x)),
{
    let m = modulus();
    let (fm, fp, gm, gp, xi) = (f.mult as int, f.plus as int, g.mult as int, g.plus as int, x as int);
    // left side
    lemma_mul_add_mod_left(fm * gm, xi, ((fm * gp + fp) % m), m);
    lemma_add_mod_noop_right((fm * gm) * xi, fm * gp + fp, m);
    // right side
    lemma_mul_add_mod_right(fm, gm * xi + gp, fp, m);
    assert((fm * gm) * xi + (fm * gp + fp) == fm * (gm * xi + gp) + fp) by (nonlinear_arith);
}

/// Composition of maps is associative.
pub proof fn lemma_after_assoc(f: Affine, g: Affine, h: Affine)
    ensures
        f.after(g.after(h)) == f.after(g).after(h),
{
    let m = modulus();
    let (fm, fp, gm, gp, hm, hp) = (
        f.mult as int,
        f.plus as int,
        g.mult as int,
        g.plus as int,
        h.mult as int,
        h.plus as int,
    );
    // multipliers
    lemma_mul_mod_noop_right(fm, gm * hm, m);
    lemma_mul_mod_noop_left(fm * gm, hm, m);
    assert(fm * (gm * hm) == (fm * gm) * hm) by (nonlinear_arith);
    // increments
    lemma_mul_add_mod_right(fm, gm * hp + gp, fp, m);
    lemma_mul_add_mod_left(fm * gm, hp, (fm * gp + fp) % m, m);
    lemma_add_mod_noop_right((fm * gm) * hp, fm * gp + fp, m);
    assert(fm * (gm * hp + gp) + fp == (fm * gm) * hp + (fm * gp + fp)) by (nonlinear_arith);
}

/// The identity is neutral on the right.
pub proof fn lemma_after_identity(f: Affine)
    ensures
        f.after(Affine::identity()) == f,
        Affine::identity().after(f) == f,
{
    let m = modulus();
    assert(f.mult * 1 == f.mult) by (nonlinear_arith);
    assert(f.mult * 0 + f.plus == f.plus) by (nonlinear_arith);
    assert(1 * f.mult == f.mult) by (nonlinear_arith);
    assert(1 * f.plus + 0 == f.plus) by (nonlinear_arith);
    lemma_small_mod(f.mult as nat, m as nat);
    lemma_small_mod(f.plus as nat, m as nat);
}

/// Powers add up: `a + b` applications are `b` applications and then `a` more.
pub proof fn lemma_pow_adds(f: Affine, a: nat, b: nat)
    ensures
        f.pow(a + b) == f.pow(a).after(f.pow(b)),
    decreases a,
{
    if a == 0 {
        lemma_after_identity(f.pow(b));
    } else {
        lemma_pow_adds(f, (a - 1) as nat, b);
        lemma_after_assoc(f, f.pow((a - 1) as nat), f.pow(b));
        assert(f.pow(a + b) == f.after(f.pow((a + b - 1) as nat)));
    }
}

/// The `n`-th power, applied once, is the map applied `n` times.
pub proof fn lemma_pow_iterate(f: Affine, x: u128, n: nat)
    ensures
        f.pow(n).apply(x) == f.iterate(x, n),
    decreases n,
{
    if n == 0 {
        assert(1 * x + 0 == x) by (nonlinear_arith);
        lemma_small_mod(x as nat, modulus() as nat);
    } else {
        lemma_pow_iterate(f, x, (n - 1) as nat);
        lemma_after_apply(f, f.pow((n - 1) as nat), x);
    }
}

/// Iterating `a` times and then `b` times is iterating `a + b` times.
pub proof fn lemma_iterate_adds(f: Affine, x: u128, a: nat, b: nat)
    ensures
        f.iterate(f.iterate(x, a), b) == f.iterate(x, a + b),
    decreases b,
{
    if b > 0 {
        lemma_iterate_adds(f, x, a, (b - 1) as nat);
        assert(f.iterate(x, a + b) == f.apply(f.iterate(x, (a + b - 1) as nat)));
    }
}

} // verus!
