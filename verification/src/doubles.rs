//! The integer side of the samplers that end in a binary64 number: which raw
//! values are drawn, and what significand and exponent they make. Turning
//! these into a number of the machine is left to the caller.

use crate::generator::OrangeyCtx;
use crate::range::lemma_largest_draw_ahead;
use crate::stream::{lemma_after_adds, Stream};
use vstd::prelude::*;
use vstd::std_specs::bits::{axiom_u64_leading_zeros, u64_leading_zeros};

verus! {

/// The 52 significand bits of a binary64 number.
pub const MASK: u64 = 0x000F_FFFF_FFFF_FFFF;

/// The sign and exponent bits of the binary64 number one.
pub const S_EXP: u64 = 0x3FF0_0000_0000_0000;

/// The bit pattern of the binary64 number in `[1, 2)` whose significand bits
/// are the low 52 bits of `raw`. That number less one is `(raw mod 2^52) /
/// 2^52`.
pub open spec fn unit_bits(raw: u64) -> u64 {
    (raw & MASK) | S_EXP
}

/// A number given as `significand * 2^exponent`.
#[derive(Clone, Copy, Debug, PartialEq, Eq, Structural)]
pub struct Scaled {
    pub significand: u64,
    pub exponent: i32,
}

/// What a nonzero raw value `first`, found after `zeros` raw values that were
/// zero, is scaled to: `first` is moved left until its top bit is set, the
/// places that open up are filled from the top of `fill`, the lowest bit is
/// set, and the exponent goes down by 64 for `first`, whose bits are the
/// first 64 places behind the point, by 64 for each raw value before it, and
/// by one for each place moved.
pub open spec fn normalized(first: u64, fill: u64, zeros: nat) -> Scaled {
    let shift = u64_leading_zeros(first);
    let moved = if shift == 0 {
        first
    } else {
        (first << (shift as u32)) | (fill >> ((64 - shift) as u32))
    };
    Scaled { significand: moved | 1, exponent: (-64 - 64 * zeros - shift) as i32 }
}

/// The most raw values that are drawn in search of a nonzero one: after
/// these the exponent would leave the range of binary64.
pub const ZERO_CAP: u32 = 16;

impl Stream {
    /// The `k`-th raw value ahead is not zero, and all before it are.
    pub open spec fn first_nonzero(self, k: nat) -> bool {
        &&& self.draw(k) != 0
        &&& forall|j: nat| j < k ==> self.draw(j) == 0
    }

    /// The next `n` raw values ahead are all zero.
    pub open spec fn all_zero(self, n: nat) -> bool {
        forall|j: nat| j < n ==> self.draw(j) == 0
    }

    /// How many raw values ahead are zero before one is not.
    pub open spec fn zero_run(self) -> nat {
        choose|k: nat| self.first_nonzero(k)
    }

    /// What the stream is scaled to: nothing where the next `ZERO_CAP` raw
    /// values are all zero, else the first nonzero raw value, normalized and
    /// filled from the raw value two places behind it.
    pub open spec fn all_doubles_value(self) -> Option<Scaled> {
        if self.all_zero(ZERO_CAP as nat) {
            None
        } else {
            let k = self.zero_run();
            Some(normalized(self.draw(k), self.draw(k + 2), k))
        }
    }

    /// Where the stream stands once it was scaled: behind the first nonzero
    /// raw value, or behind `ZERO_CAP` zeros.
    pub open spec fn all_doubles_rest(self) -> Stream {
        if self.all_zero(ZERO_CAP as nat) {
            self.after(ZERO_CAP as nat)
        } else {
            self.after(self.zero_run() + 1)
        }
    }

    /// The `k`-th raw value ahead has a significand part that is not zero, and
    /// none before it has.
    pub open spec fn first_fraction(self, k: nat) -> bool {
        &&& unit_bits(self.draw(k)) != S_EXP
        &&& forall|j: nat| j < k ==> unit_bits(self.draw(j)) == S_EXP
    }

    /// How many raw values ahead have a significand part of zero before one
    /// has not.
    pub open spec fn fraction_run(self) -> nat {
        choose|k: nat| self.first_fraction(k)
    }

    /// The two patterns that a normal deviate is made of: that of the first
    /// raw value whose significand part is not zero, and that of the raw
    /// value two places behind it.
    pub open spec fn gaussian_value(self) -> (u64, u64) {
        let k = self.fraction_run();
        (unit_bits(self.draw(k)), unit_bits(self.draw(k + 2)))
    }

    /// Where the stream stands once the patterns of a normal deviate were
    /// drawn: behind the first of the two raw values.
    pub open spec fn gaussian_rest(self) -> Stream {
        self.after(self.fraction_run() + 1)
    }

    /// The two patterns that a Poisson count is made of: that of the next raw
    /// value, and that of the raw value two places behind it.
    pub open spec fn poisson_value(self) -> (u64, u64) {
        (unit_bits(self.draw(0)), unit_bits(self.draw(2)))
    }
}

/// Only one index can be that of the first nonzero raw value.
pub proof fn lemma_first_nonzero_unique(s: Stream, k: nat)
    requires
        s.first_nonzero(k),
    ensures
        s.zero_run() == k,
        forall|n: nat| s.all_zero(n) <==> n <= k,
{
    let c = s.zero_run();
    assert(s.first_nonzero(c));
    if c < k {
        assert(s.draw(c) == 0);
    }
    if k < c {
        assert(s.draw(k) == 0);
    }
}

/// Only one index can be that of the first raw value with a significand part
/// that is not zero.
pub proof fn lemma_first_fraction_unique(s: Stream, k: nat)
    requires
        s.first_fraction(k),
    ensures
        s.fraction_run() == k,
{
    let c = s.fraction_run();
    assert(s.first_fraction(c));
    if c < k {
        assert(unit_bits(s.draw(c)) == S_EXP);
    }
    if k < c {
        assert(unit_bits(s.draw(k)) == S_EXP);
    }
}

/// The pattern of a number in `[1, 2)` lies between that of one and that of
/// the largest number below two, and is the pattern of one plus the low 52
/// bits of the raw value.
pub proof fn lemma_unit_bits(raw: u64)
    ensures
        S_EXP <= unit_bits(raw) <= S_EXP + MASK,
        unit_bits(raw) == S_EXP + raw % 0x10_0000_0000_0000,
{
    assert(0x3FF0_0000_0000_0000u64 <= ((raw & 0x000F_FFFF_FFFF_FFFFu64)
        | 0x3FF0_0000_0000_0000u64) <= 0x3FFF_FFFF_FFFF_FFFFu64) by (bit_vector);
    assert(((raw & 0x000F_FFFF_FFFF_FFFFu64) | 0x3FF0_0000_0000_0000u64) == 0x3FF0_0000_0000_0000u64
        + raw % 0x10_0000_0000_0000u64) by (bit_vector);
}

/// A normalized significand has its top and its lowest bit set, and the
/// exponent that goes with it is at most -64.
pub proof fn lemma_normalized(first: u64, fill: u64, zeros: nat)
    requires
        first != 0,
        zeros < ZERO_CAP,
    ensures
        normalized(first, fill, zeros).significand >= 0x8000_0000_0000_0000,
        normalized(first, fill, zeros).significand % 2 == 1,
        -1087 <= normalized(first, fill, zeros).exponent <= -64,
        normalized(first, fill, zeros).exponent == -64 - 64 * zeros - u64_leading_zeros(first),
{
    axiom_u64_leading_zeros(first);
    let shift = u64_leading_zeros(first) as u32;
    let moved: u64 = if shift == 0 {
        first
    } else {
        (first << shift) | (fill >> ((64 - shift) as u32))
    };
    assert((first >> ((63 - shift) as u64)) & 1 != 0);
    assert(moved >= 0x8000_0000_0000_0000 && (moved | 1) >= 0x8000_0000_0000_0000 && (moved | 1)
        % 2 == 1) by (bit_vector)
        requires
            shift < 64,
            (first >> ((63 - shift) as u64)) & 1 != 0,
            moved == if shift == 0 {
                first
            } else {
                (first << shift) | (fill >> ((64 - shift) as u32))
            },
    ;
}

impl OrangeyCtx {
    /// Draws one raw value and returns the bit pattern of a binary64 number
    /// in `[1, 2)`: that number less one is uniform over the multiples of
    /// `2^-52` in `[0, 1)`.
    pub fn uniform_double_bits(&mut self) -> (r: u64)
        ensures
            r == unit_bits(old(self)@.draw(0)),
            final(self)@ == old(self)@.after(1),
            final(self)@.wf(),
            S_EXP <= r <= S_EXP + MASK,
    {
        let mut i = self.rand();
        i &= MASK;
        i |= S_EXP;
        proof {
            lemma_unit_bits(old(self)@.draw(0));
        }
        i
    }

    /// Draws raw values until one is not zero, at most `ZERO_CAP` of them,
    /// and scales it so that every binary64 number in `[0, 1)` can come out.
    /// `None` stands for zero: all `ZERO_CAP` raw values were zero.
    pub fn all_doubles_parts(&mut self) -> (r: Option<Scaled>)
        ensures
            r == old(self)@.all_doubles_value(),
            final(self)@ == old(self)@.all_doubles_rest(),
            final(self)@.wf(),
            r matches Some(parts) ==> parts.significand >= 0x8000_0000_0000_0000
                && parts.significand % 2 == 1 && -1087 <= parts.exponent <= -64,
    {
        let ghost start = self@;
        let ghost zeros: nat = 0;
        let mut exponent: i32 = 0;
        let mut significand: u64;
        proof {
            use_type_invariant(&*self);
            lemma_after_adds(start, 0, 0);
        }
        loop
            invariant_except_break
                self@ == start.after(zeros),
                exponent == -64 * zeros,
                zeros <= ZERO_CAP,
                forall|j: nat| j < zeros ==> start.draw(j) == 0,
            invariant
                old(self)@ == start,
                self@.wf(),
            ensures
                zeros < ZERO_CAP,
                start.first_nonzero(zeros),
                significand == start.draw(zeros),
                self@ == start.after(zeros + 1),
                exponent == -64 - 64 * zeros,
            decreases ZERO_CAP - zeros,
        {
            exponent -= 64;
            if exponent < -1074 {
                return None;
            }
            significand = self.rand();
            proof {
                lemma_after_adds(start, zeros, 1);
                lemma_after_adds(start, zeros, 0);
            }
            if significand != 0 {
                break ;
            }
            proof {
                zeros = zeros + 1;
            }
        }
        let ghost first = significand;
        let shift = significand.leading_zeros();
        proof {
            axiom_u64_leading_zeros(significand);
            lemma_after_adds(start, zeros + 1, 1);
        }
        if shift != 0 {
            exponent -= shift as i32;
            significand <<= shift;
            significand |= self.peek(1) >> (64 - shift);
        }
        significand |= 1;
        proof {
            lemma_normalized(first, start.draw(zeros + 2), zeros);
            lemma_first_nonzero_unique(start, zeros);
        }
        Some(Scaled { significand, exponent })
    }

    /// The two patterns that a normal deviate is made of: that of the first
    /// draw of `uniform_double_bits` that is not the pattern of one, and that
    /// of `peek_uniform_double_bits(1)` behind it.
    pub fn gaussian_draws(&mut self) -> (r: (u64, u64))
        ensures
            r == old(self)@.gaussian_value(),
            final(self)@ == old(self)@.gaussian_rest(),
            final(self)@.wf(),
            S_EXP < r.0 <= S_EXP + MASK,
            S_EXP <= r.1 <= S_EXP + MASK,
    {
        let ghost start = self@;
        let ghost seen: nat = 0;
        proof {
            use_type_invariant(&*self);
            lemma_after_adds(start, 0, 0);
        }
        let ghost last = lemma_largest_draw_ahead(start);
        proof {
            lemma_unit_bits(u64::MAX);
        }
        let mut rsq: u64;
        loop
            invariant_except_break
                self@ == start.after(seen),
                seen <= last,
                forall|j: nat| j < seen ==> unit_bits(start.draw(j)) == S_EXP,
            invariant
                start.draw(last) == u64::MAX,
                unit_bits(u64::MAX) != S_EXP,
                self@.wf(),
            ensures
                start.first_fraction(seen),
                rsq == unit_bits(start.draw(seen)),
                self@ == start.after(seen + 1),
            decreases last - seen,
        {
            rsq = self.uniform_double_bits();
            proof {
                lemma_after_adds(start, seen, 1);
                lemma_after_adds(start, seen, 0);
            }
            if rsq != S_EXP {
                break ;
            }
            proof {
                seen = seen + 1;
            }
        }
        let scale = self.peek_uniform_double_bits(1);
        proof {
            lemma_after_adds(start, seen + 1, 1);
            lemma_unit_bits(start.draw(seen));
            lemma_first_fraction_unique(start, seen);
        }
        (rsq, scale)
    }

    /// The two patterns that a Poisson count is made of: that of one draw of
    /// `uniform_double_bits`, and that of `peek_uniform_double_bits(1)`
    /// behind it.
    pub fn poisson_draws(&mut self) -> (r: (u64, u64))
        ensures
            r == old(self)@.poisson_value(),
            final(self)@ == old(self)@.after(1),
            final(self)@.wf(),
            S_EXP <= r.0 <= S_EXP + MASK,
            S_EXP <= r.1 <= S_EXP + MASK,
    {
        let x = self.uniform_double_bits();
        let factor = self.peek_uniform_double_bits(1);
        proof {
            lemma_after_adds(old(self)@, 1, 1);
        }
        (x, factor)
    }

    /// What `uniform_double_bits()` would return after `delta` raw values
    /// were drawn; the generator stays where it is.
    pub fn peek_uniform_double_bits(&self, delta: u128) -> (r: u64)
        ensures
            r == unit_bits(self@.draw(delta as nat)),
            S_EXP <= r <= S_EXP + MASK,
    {
        let mut ahead = self.fork();
        ahead.skip(delta);
        proof {
            lemma_after_adds(self@, delta as nat, 0);
        }
        ahead.uniform_double_bits()
    }

    /// What `all_doubles_parts()` would return after `delta` raw values were
    /// drawn; the generator stays where it is.
    pub fn peek_all_doubles_parts(&self, delta: u128) -> (r: Option<Scaled>)
        ensures
            r == self@.after(delta as nat).all_doubles_value(),
            r matches Some(parts) ==> parts.significand >= 0x8000_0000_0000_0000
                && parts.significand % 2 == 1 && -1087 <= parts.exponent <= -64,
    {
        let mut ahead = self.fork();
        ahead.skip(delta);
        ahead.all_doubles_parts()
    }

    /// What `gaussian_draws()` would return after `delta` raw values were
    /// drawn; the generator stays where it is.
    pub fn peek_gaussian_draws(&self, delta: u128) -> (r: (u64, u64))
        ensures
            r == self@.after(delta as nat).gaussian_value(),
            S_EXP < r.0 <= S_EXP + MASK,
            S_EXP <= r.1 <= S_EXP + MASK,
    {
        let mut ahead = self.fork();
        ahead.skip(delta);
        ahead.gaussian_draws()
    }

    /// What `poisson_draws()` would return after `delta` raw values were
    /// drawn; the generator stays where it is.
    pub fn peek_poisson_draws(&self, delta: u128) -> (r: (u64, u64))
        ensures
            r == self@.after(delta as nat).poisson_value(),
            S_EXP <= r.0 <= S_EXP + MASK,
            S_EXP <= r.1 <= S_EXP + MASK,
    {
        let mut ahead = self.fork();
        ahead.skip(delta);
        ahead.poisson_draws()
    }
}

} // verus!
