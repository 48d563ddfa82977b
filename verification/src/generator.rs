//! The generator itself: construction, reseeding, drawing, jumping and peeking.

use crate::affine::{lemma_pow_adds, lemma_pow_iterate, modulus, Affine};
use crate::stream::{permute, Stream, MUL};
use vstd::arithmetic::div_mod::*;
use vstd::prelude::*;

verus! {

/// A generator: 128 bits of state and the odd increment that selects its
/// stream.
pub struct OrangeyCtx {
    state: u128,
    inc: u128,
}

impl View for OrangeyCtx {
    type V = Stream;

    closed spec fn view(&self) -> Stream {
        Stream { state: self.state, inc: self.inc }
    }
}

impl Default for OrangeyCtx {
    /// A generator on the default stream.
    fn default() -> (r: Self)
        ensures
            r@ == Stream::initial(),
            r@.wf(),
    {
        Self::new()
    }
}

/// Wrapping multiplication followed by wrapping addition is the affine map
/// modulo two to the power 128.
proof fn lemma_wrapping_affine(m: u128, x: u128, p: u128)
    ensures
        vstd::wrapping::u128_specs::wrapping_add(
            vstd::wrapping::u128_specs::wrapping_mul(m, x),
            p,
        ) == (Affine { mult: m, plus: p }).apply(x),
{
    let md = modulus();
    let prod = vstd::wrapping::u128_specs::wrapping_mul(m, x);
    assert(prod == (m * x) % md);
    lemma_add_mod_noop(m * x, p as int, md);
    lemma_small_mod(p as nat, md as nat);
    assert((prod + p) % md == (m * x + p) % md);
}

impl OrangeyCtx {
    /// Every generator is on a stream with an odd increment.
    #[verifier::type_invariant]
    pub open spec fn inv(self) -> bool {
        self@.wf()
    }

    /// A generator on the default stream.
    pub fn new() -> (r: Self)
        ensures
            r@ == Stream::initial(),
            r@.wf(),
    {
        OrangeyCtx {
            state: 0xce84809586cf8d1f17e1e9805a1b4141,
            inc: 0xb0a3e85a992afe5a280af6fdeecf029f,
        }
    }

    /// An independent generator at the same place on the same stream.
    pub(crate) fn fork(&self) -> (r: Self)
        ensures
            r@ == self@,
            r@.wf(),
    {
        proof {
            use_type_invariant(self);
        }
        OrangeyCtx { state: self.state, inc: self.inc }
    }

    /// Jumps `delta` values ahead in the stream.
    pub fn skip(&mut self, delta: u128)
        ensures
            final(self)@ == old(self)@.after(delta as nat),
            final(self)@.wf(),
    {
        proof {
            use_type_invariant(&*self);
        }
        self.state = Self::advance(self.state, delta, MUL, self.inc);
    }

    /// The `delta`-th value ahead in the stream; the generator stays where it
    /// is.
    pub fn peek(&mut self, delta: u128) -> (r: u64)
        ensures
            r == old(self)@.draw(delta as nat),
            final(self)@ == old(self)@,
            final(self)@.wf(),
    {
        proof {
            use_type_invariant(&*self);
        }
        let ahead = Self::advance(self.state, delta, MUL, self.inc);
        proof {
            lemma_wrapping_affine(MUL, ahead, self.inc);
        }
        Self::output(ahead.wrapping_mul(MUL).wrapping_add(self.inc))
    }

    /// Puts the generator on the stream `Stream::seeded(initstate, initseq)`.
    pub fn srand(&mut self, initstate: u128, initseq: u128)
        ensures
            final(self)@ == Stream::seeded(initstate, initseq),
            final(self)@.wf(),
    {
        proof {
            use_type_invariant(&*self);
        }
        self.state = 0;
        assert(((initseq << 1) | 1) % 2 == 1) by (bit_vector);
        self.inc = (initseq << 1) | 1;
        self.step();
        assert(self@.raw_step().iterate(0, 1) == self@.raw_step().apply(
            self@.raw_step().iterate(0, 0),
        ));
        self.state = self.state.wrapping_add(initstate);
        let ghost mixed = self@;
        self.step();
        assert(mixed.raw_step().iterate(mixed.state, 1) == mixed.raw_step().apply(
            mixed.raw_step().iterate(mixed.state, 0),
        ));
    }

    /// Runs the generator one step and returns the value it puts out.
    pub fn rand(&mut self) -> (r: u64)
        ensures
            r == old(self)@.draw(0),
            final(self)@ == old(self)@.after(1),
            final(self)@.wf(),
    {
        proof {
            use_type_invariant(&*self);
        }
        self.step();
        Self::output(self.state)
    }

    /// The output permutation.
    pub(crate) fn output(state: u128) -> (r: u64)
        ensures
            r == permute(state),
    {
        let folded: u64 = ((state >> 64) as u64) ^ (#[verifier::truncate] (state as u64));
        let turn: u32 = (state >> 122) as u32;
        assert(turn < 64) by (bit_vector)
            requires
                turn == (state >> 122) as u32,
        ;
        if turn == 0 {
            folded
        } else {
            (folded >> turn) | (folded << (64 - turn))
        }
    }

    /// One raw step.
    pub(crate) fn step(&mut self)
        ensures
            final(self)@ == old(self)@.after(1),
    {
        proof {
            use_type_invariant(&*self);
            lemma_wrapping_affine(MUL, self.state, self.inc);
            assert(self@.after(1).state == self@.raw_step().apply(
                self@.raw_step().iterate(self.state, 0),
            ));
        }
        self.state = self.state.wrapping_mul(MUL).wrapping_add(self.inc);
    }

    /// The value that `delta` applications of `x -> cur_mult * x + cur_plus`
    /// lead to from `state`, found in a number of rounds that is the bit
    /// length of `delta`.
    pub(crate) fn advance(state: u128, delta: u128, cur_mult: u128, cur_plus: u128) -> (r: u128)
        ensures
            r == (Affine { mult: cur_mult, plus: cur_plus }).iterate(state, delta as nat),
    {
        let ghost base = Affine { mult: cur_mult, plus: cur_plus };
        let ghost total = delta as nat;
        let ghost done: nat = 0;
        let ghost span: nat = 1;
        let mut delta = delta;
        let mut cur_mult = cur_mult;
        let mut cur_plus = cur_plus;
        let mut acc_mult: u128 = 1;
        let mut acc_plus: u128 = 0;
        proof {
            lemma_pow_adds(base, 0, 1);
            crate::affine::lemma_after_identity(base.pow(1));
            crate::affine::lemma_after_identity(base);
            assert(base.pow(1) == base.after(base.pow(0)));
        }
        while delta > 0
            invariant
                done + delta * span == total,
                (Affine { mult: cur_mult, plus: cur_plus }) == base.pow(span),
                (Affine { mult: acc_mult, plus: acc_plus }) == base.pow(done),
            decreases delta,
        {
            let ghost cur = Affine { mult: cur_mult, plus: cur_plus };
            let ghost acc = Affine { mult: acc_mult, plus: acc_plus };
            let ghost half = delta / 2;
            assert(delta & 1 != 0 <==> delta % 2 == 1) by (bit_vector);
            if delta & 1 != 0 {
                proof {
                    lemma_wrapping_affine(cur_mult, acc_plus, cur_plus);
                    lemma_pow_adds(base, span, done);
                    assert(cur.after(acc).mult == vstd::wrapping::u128_specs::wrapping_mul(
                        acc_mult,
                        cur_mult,
                    )) by {
                        assert(cur_mult * acc_mult == acc_mult * cur_mult) by (nonlinear_arith);
                    }
                    assert(vstd::wrapping::u128_specs::wrapping_mul(acc_plus, cur_mult)
                        == vstd::wrapping::u128_specs::wrapping_mul(cur_mult, acc_plus)) by {
                        assert(cur_mult * acc_plus == acc_plus * cur_mult) by (nonlinear_arith);
                    }
                    assert(done + span + half * (2 * span) == total) by (nonlinear_arith)
                        requires
                            done + delta * span == total,
                            delta == 2 * half + 1,
                    ;
                }
                acc_mult = acc_mult.wrapping_mul(cur_mult);
                acc_plus = acc_plus.wrapping_mul(cur_mult).wrapping_add(cur_plus);
                proof {
                    done = done + span;
                }
            } else {
                proof {
                    assert(done + half * (2 * span) == total) by (nonlinear_arith)
                        requires
                            done + delta * span == total,
                            delta == 2 * half,
                    ;
                }
            }
            proof {
                lemma_pow_adds(base, span, span);
                let md = modulus();
                lemma_mul_mod_noop_right(cur_plus as int, cur_mult + 1, md);
                assert(cur_plus * (cur_mult + 1) == cur_mult * cur_plus + cur_plus)
                    by (nonlinear_arith);
                assert(vstd::wrapping::u128_specs::wrapping_add(cur_mult, 1) == (cur_mult + 1)
                    % md);
            }
            cur_plus = cur_plus.wrapping_mul(cur_mult.wrapping_add(1));
            cur_mult = cur_mult.wrapping_mul(cur_mult);
            delta = delta / 2;
            proof {
                span = 2 * span;
            }
        }
        proof {
            lemma_wrapping_affine(acc_mult, state, acc_plus);
            lemma_pow_iterate(base, state, total);
            assert(delta * span == 0) by (nonlinear_arith)
                requires
                    delta == 0,
            ;
        }
        acc_mult.wrapping_mul(state).wrapping_add(acc_plus)
    }
}

} // verus!
