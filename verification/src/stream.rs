//! The mathematical model of a generator: its state, the recurrence that
//! drives it, and the permutation that turns a state into an output.

use crate::affine::{lemma_iterate_adds, modulus, Affine};
use vstd::prelude::*;

verus! {

/// The multiplier of the recurrence.
pub const MUL: u128 = 0x2360ed051fc65da44385df649fccf645;

/// `x` turned right by `r` places, the bits that fall off the low end coming
/// back in at the high end.
pub open spec fn rotate_right(x: u64, r: u32) -> u64 {
    if r % 64 == 0 {
        x
    } else {
        (x >> (r % 64)) | (x << ((64 - r % 64) as u32))
    }
}

/// Bit `i` of the turned value is bit `i + r` of `x`, the places counted
/// modulo 64.
pub proof fn lemma_rotate_right_bit(x: u64, r: u32, i: u32)
    requires
        r < 64,
        i < 64,
    ensures
        (rotate_right(x, r) >> i) & 1 == (x >> ((i + r) % 64) as u32) & 1,
{
    assert((rotate_right(x, r) >> i) & 1 == (x >> ((i + r) % 64) as u32) & 1) by (bit_vector)
        requires
            r < 64,
            i < 64,
    ;
}

/// The output permutation: the upper and the lower half of the state folded
/// together by exclusive or, then turned right by the state's top six bits.
pub open spec fn permute(state: u128) -> u64 {
    rotate_right(((state >> 64) as u64) ^ (state as u64), (state >> 122) as u32)
}

/// What a generator is: a position `state` on the stream that `inc` selects.
pub struct Stream {
    pub state: u128,
    pub inc: u128,
}

impl Stream {
    /// The stream of a generator that was never reseeded.
    pub open spec fn initial() -> Stream {
        Stream {
            state: 0xce84809586cf8d1f17e1e9805a1b4141,
            inc: 0xb0a3e85a992afe5a280af6fdeecf029f,
        }
    }

    /// The stream after a reseed: the increment is `init_seq` doubled plus
    /// one; the state starts at zero, takes one raw step, has `init_state`
    /// added to it, and takes one more raw step.
    pub open spec fn seeded(init_state: u128, init_seq: u128) -> Stream {
        let inc = (init_seq << 1) | 1;
        let first = Stream { state: 0, inc }.after(1).state;
        let mixed = ((first + init_state) % modulus()) as u128;
        Stream { state: mixed, inc }.after(1)
    }

    /// Every stream that a generator can be on has an odd increment.
    pub open spec fn wf(self) -> bool {
        self.inc % 2 == 1
    }

    /// One raw step as an affine map: `state -> state * MUL + inc`.
    pub open spec fn raw_step(self) -> Affine {
        Affine { mult: MUL, plus: self.inc }
    }

    /// The stream after `n` raw steps, taken one at a time.
    pub open spec fn after(self, n: nat) -> Stream {
        Stream { state: self.raw_step().iterate(self.state, n), inc: self.inc }
    }

    /// The value that this position puts out.
    pub open spec fn output(self) -> u64 {
        permute(self.state)
    }

    /// The `k`-th raw value ahead, counted from zero: the output after
    /// `k + 1` raw steps.
    pub open spec fn draw(self, k: nat) -> u64 {
        self.after(k + 1).output()
    }
}

/// Steps add up: `a` raw steps and then `b` more are `a + b` raw steps.
pub proof fn lemma_after_adds(s: Stream, a: nat, b: nat)
    ensures
        s.after(a).after(b) == s.after(a + b),
        s.after(a).draw(b) == s.draw(a + b),
{
    lemma_iterate_adds(s.raw_step(), s.state, a, b);
    lemma_iterate_adds(s.raw_step(), s.state, a, b + 1);
}

} // verus!
