//! Why a stream with an odd increment visits every state: the map that takes
//! two to the power `k` raw steps at once flips bit `k` of the state and
//! leaves the bits below it alone.

use crate::affine::{
    lemma_after_identity, lemma_iterate_adds, lemma_mul_add_mod_left, lemma_pow_adds,
    lemma_pow_iterate, modulus, Affine,
};
use crate::stream::Stream;
use vstd::arithmetic::div_mod::*;
use vstd::arithmetic::power2::*;
use vstd::prelude::*;

verus! {

/// The maps whose iterates run through every residue: the multiplier leaves
/// remainder one when divided by four, and the increment is odd.
pub open spec fn full_period(base: Affine) -> bool {
    base.mult % 4 == 1 && base.plus % 2 == 1
}

/// The low `k` bits of `x`, as a number.
pub open spec fn low_bits(x: u128, k: nat) -> int {
    (x as int) % (pow2(k) as int)
}

/// Two to the power 128 is the modulus, and every smaller power of two
/// divides it.
proof fn lemma_modulus_split(k: nat)
    requires
        k <= 128,
    ensures
        pow2(k) > 0,
        pow2((128 - k) as nat) > 0,
        modulus() == pow2(k) * pow2((128 - k) as nat),
{
    lemma2_to64();
    lemma_pow2_adds(64, 64);
    assert(0x1_0000_0000_0000_0000int * 0x1_0000_0000_0000_0000int == u128::MAX + 1)
        by (nonlinear_arith);
    lemma_pow2_adds(k, (128 - k) as nat);
    lemma_pow2_pos(k);
    lemma_pow2_pos((128 - k) as nat);
}

/// Reducing modulo two to the power 128 first changes no remainder modulo a
/// smaller power of two.
proof fn lemma_mod_modulus(x: int, k: nat)
    requires
        k <= 128,
    ensures
        (x % modulus()) % (pow2(k) as int) == x % (pow2(k) as int),
{
    lemma_modulus_split(k);
    lemma_mod_mod(x, pow2(k) as int, pow2((128 - k) as nat) as int);
}

/// The square of a number that is one more than a multiple of `2 * h` is one
/// more than a multiple of `4 * h`.
proof fn lemma_square_lifts(a: int, h: int)
    requires
        h >= 1,
        a % (2 * h) == 1,
    ensures
        (a * a) % (4 * h) == 1,
{
    let t = a / (2 * h);
    lemma_fundamental_div_mod(a, 2 * h);
    assert(a * a == (4 * h) * (t + h * t * t) + 1) by (nonlinear_arith)
        requires
            a == (2 * h) * t + 1,
    ;
    lemma_mod_multiples_vanish(t + h * t * t, 1, 4 * h);
    lemma_small_mod(1, (4 * h) as nat);
}

/// An odd multiple of `h` times twice an odd number is an odd multiple of
/// `2 * h`.
proof fn lemma_increment_lifts(a: int, c: int, h: int)
    requires
        h >= 1,
        a % 4 == 1,
        c % (2 * h) == h,
    ensures
        (a * c + c) % (4 * h) == 2 * h,
{
    let u = a / 4;
    let v = c / (2 * h);
    lemma_fundamental_div_mod(a, 4);
    lemma_fundamental_div_mod(c, 2 * h);
    assert(a * c + c == (4 * h) * (u + v + 2 * u * v) + 2 * h) by (nonlinear_arith)
        requires
            a == 4 * u + 1,
            c == (2 * h) * v + h,
    ;
    lemma_mod_multiples_vanish(u + v + 2 * u * v, 2 * h, 4 * h);
    lemma_small_mod((2 * h) as nat, (4 * h) as nat);
}

/// The map that takes two to the power `k` steps at once has a multiplier
/// that is one modulo two to the power `k + 1`, and an increment that is two
/// to the power `k` modulo the same.
pub proof fn lemma_doubling(base: Affine, k: nat)
    requires
        full_period(base),
        k <= 127,
    ensures
        low_bits(base.pow(pow2(k)).mult, k + 1) == 1,
        base.pow(pow2(k)).mult % 4 == 1,
        low_bits(base.pow(pow2(k)).plus, k + 1) == pow2(k),
    decreases k,
{
    lemma2_to64();
    if k == 0 {
        assert(base.pow(1) == base.after(base.pow(0)));
        lemma_after_identity(base);
        assert(base.mult % 2 == 1);
    } else {
        let j = (k - 1) as nat;
        let h = pow2(j) as int;
        lemma_doubling(base, j);
        lemma_pow2_pos(j);
        lemma_pow2_unfold(k);
        lemma_pow2_unfold(k + 1);
        let q = base.pow(pow2(j));
        lemma_pow_adds(base, pow2(j), pow2(j));
        assert(base.pow(pow2(k)) == q.after(q));
        let (a, c) = (q.mult as int, q.plus as int);
        lemma_square_lifts(a, h);
        lemma_increment_lifts(a, c, h);
        lemma_mod_modulus(a * a, k + 1);
        lemma_mod_modulus(a * c + c, k + 1);
        lemma_mod_modulus(a * a, 2);
        lemma_mul_mod_noop(a, a, 4);
        assert(pow2(k + 1) == 4 * h);
    }
}

/// Two to the power `k` steps at once add two to the power `k` to the state,
/// modulo two to the power `k + 1`.
pub proof fn lemma_flip(base: Affine, k: nat, z: u128)
    requires
        full_period(base),
        k <= 127,
    ensures
        low_bits(base.iterate(z, pow2(k)), k + 1) == (z + pow2(k)) % (pow2(k + 1) as int),
{
    let p = pow2(k + 1) as int;
    let q = base.pow(pow2(k));
    let (a, c) = (q.mult as int, q.plus as int);
    lemma_doubling(base, k);
    lemma_pow_iterate(base, z, pow2(k));
    lemma_pow2_pos(k + 1);
    lemma_mod_modulus(a * z + c, k + 1);
    lemma_mul_add_mod_left(a, z as int, c, p);
    lemma_add_mod_noop_right(z as int, c, p);
    assert(1 * z == z) by (nonlinear_arith);
}

/// Two numbers that agree modulo `h` and differ modulo `2 * h` agree modulo
/// `2 * h` once `h` is added to one of them.
proof fn lemma_flip_agrees(z: int, y: int, h: int)
    requires
        h >= 1,
        z >= 0,
        y >= 0,
        z % h == y % h,
        z % (2 * h) != y % (2 * h),
    ensures
        (z + h) % (2 * h) == y % (2 * h),
{
    lemma_mod_breakdown(z, h, 2);
    lemma_mod_breakdown(y, h, 2);
    lemma_mod_breakdown(z + h, h, 2);
    lemma_div_plus_one(z, h);
    lemma_mod_add_multiples_vanish(z, h);
    let (zb, yb, wb) = ((z / h) % 2, (y / h) % 2, ((z + h) / h) % 2);
    assert(h * 2 == 2 * h);
    assert(zb != yb) by {
        if zb == yb {
            assert(h * zb == h * yb);
        }
    }
    assert(wb == yb);
    assert(h * wb == h * yb);
}

/// From any value, fewer than two to the power `k` applications lead to a
/// value that agrees with `y` in its low `k` bits. The count is returned.
pub proof fn lemma_reaches_low_bits(base: Affine, x: u128, y: u128, k: nat) -> (n: nat)
    requires
        full_period(base),
        k <= 128,
    ensures
        n < pow2(k),
        low_bits(base.iterate(x, n), k) == low_bits(y, k),
    decreases k,
{
    lemma2_to64();
    if k == 0 {
        0
    } else {
        let j = (k - 1) as nat;
        let h = pow2(j) as int;
        let m = lemma_reaches_low_bits(base, x, y, j);
        let z = base.iterate(x, m);
        lemma_pow2_pos(j);
        lemma_pow2_unfold(k);
        if low_bits(z, k) == low_bits(y, k) {
            m
        } else {
            lemma_flip(base, j, z);
            lemma_flip_agrees(z as int, y as int, h);
            lemma_iterate_adds(base, x, m, pow2(j));
            m + pow2(j)
        }
    }
}

/// A stream with an odd increment reaches every state: the number of raw
/// steps that lead from `s` to `target` is returned, and is less than two to
/// the power 128.
pub proof fn lemma_reaches(s: Stream, target: u128) -> (n: nat)
    requires
        s.wf(),
    ensures
        n <= u128::MAX,
        s.after(n).state == target,
{
    let n = lemma_reaches_low_bits(s.raw_step(), s.state, target, 128);
    lemma_modulus_split(128);
    lemma_modulus_split(0);
    lemma2_to64();
    lemma_small_mod(target as nat, modulus() as nat);
    lemma_small_mod(s.after(n).state as nat, modulus() as nat);
    n
}

} // verus!
