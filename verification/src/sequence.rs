//! Endless sequences of samples: those that draw from a generator, and those
//! that look ahead of one, each time one place further, and leave it alone.

use crate::doubles::{unit_bits, Scaled};
use crate::generator::OrangeyCtx;
use crate::range::{high_bound, low_bound};
use core::ops::Range;
use vstd::prelude::*;

verus! {

/// The values of `rand_range`, one call after the other, drawn from the
/// generator that `ctx` borrows.
pub struct RandRangeIter<'a> {
    pub ctx: &'a mut OrangeyCtx,
    pub range: Range<u64>,
}

impl<'a> RandRangeIter<'a> {
    /// The next value; the generator moves on as `rand_range` moves it.
    pub fn next(&mut self) -> (r: Option<u64>)
        ensures
            r == Some(old(self).ctx@.range_value(low_bound(old(self).range), high_bound(old(self).range)) as u64),
            final(self).ctx@ == old(self).ctx@.range_rest(low_bound(old(self).range), high_bound(old(self).range)),
            final(final(self).ctx)@ == final(old(self).ctx)@,
            final(self).range == old(self).range,
    {
        Some(self.ctx.rand_range(Range { start: self.range.start, end: self.range.end }))
    }
}

/// The values of `uniform_double_bits`, one call after the other, drawn from the
/// generator that `ctx` borrows.
pub struct UniformDoubleBitsIter<'a> {
    pub ctx: &'a mut OrangeyCtx,
}

impl<'a> UniformDoubleBitsIter<'a> {
    /// The next value; the generator moves on as `uniform_double_bits` moves it.
    pub fn next(&mut self) -> (r: Option<u64>)
        ensures
            r == Some(unit_bits(old(self).ctx@.draw(0))),
            final(self).ctx@ == old(self).ctx@.after(1),
            final(final(self).ctx)@ == final(old(self).ctx)@,
    {
        Some(self.ctx.uniform_double_bits())
    }
}

/// The values of `all_doubles_parts`, one call after the other, drawn from the
/// generator that `ctx` borrows.
pub struct AllDoublesPartsIter<'a> {
    pub ctx: &'a mut OrangeyCtx,
}

impl<'a> AllDoublesPartsIter<'a> {
    /// The next value; the generator moves on as `all_doubles_parts` moves it.
    pub fn next(&mut self) -> (r: Option<Option<Scaled>>)
        ensures
            r == Some(old(self).ctx@.all_doubles_value()),
            final(self).ctx@ == old(self).ctx@.all_doubles_rest(),
            final(final(self).ctx)@ == final(old(self).ctx)@,
    {
        Some(self.ctx.all_doubles_parts())
    }
}

/// The values of `gaussian_draws`, one call after the other, drawn from the
/// generator that `ctx` borrows.
pub struct GaussianDrawsIter<'a> {
    pub ctx: &'a mut OrangeyCtx,
}

impl<'a> GaussianDrawsIter<'a> {
    /// The next value; the generator moves on as `gaussian_draws` moves it.
    pub fn next(&mut self) -> (r: Option<(u64, u64)>)
        ensures
            r == Some(old(self).ctx@.gaussian_value()),
            final(self).ctx@ == old(self).ctx@.gaussian_rest(),
            final(final(self).ctx)@ == final(old(self).ctx)@,
    {
        Some(self.ctx.gaussian_draws())
    }
}

/// The values of `poisson_draws`, one call after the other, drawn from the
/// generator that `ctx` borrows.
pub struct PoissonDrawsIter<'a> {
    pub ctx: &'a mut OrangeyCtx,
}

impl<'a> PoissonDrawsIter<'a> {
    /// The next value; the generator moves on as `poisson_draws` moves it.
    pub fn next(&mut self) -> (r: Option<(u64, u64)>)
        ensures
            r == Some(old(self).ctx@.poisson_value()),
            final(self).ctx@ == old(self).ctx@.after(1),
            final(final(self).ctx)@ == final(old(self).ctx)@,
    {
        Some(self.ctx.poisson_draws())
    }
}

impl OrangeyCtx {
    /// The endless sequence of the values of `rand_range`. What it draws is gone
    /// from this generator once the sequence is let go.
    pub fn rand_range_iter(&mut self, range: Range<u64>) -> (it: RandRangeIter<'_>)
        ensures
            it.ctx@ == old(self)@,
            it.range == range,
            final(self)@ == final(it.ctx)@,
    {
        RandRangeIter { ctx: self, range }
    }

    /// The endless sequence of the values of `uniform_double_bits`. What it draws is gone
    /// from this generator once the sequence is let go.
    pub fn uniform_double_bits_iter(&mut self) -> (it: UniformDoubleBitsIter<'_>)
        ensures
            it.ctx@ == old(self)@,
            final(self)@ == final(it.ctx)@,
    {
        UniformDoubleBitsIter { ctx: self }
    }

    /// The endless sequence of the values of `all_doubles_parts`. What it draws is gone
    /// from this generator once the sequence is let go.
    pub fn all_doubles_parts_iter(&mut self) -> (it: AllDoublesPartsIter<'_>)
        ensures
            it.ctx@ == old(self)@,
            final(self)@ == final(it.ctx)@,
    {
        AllDoublesPartsIter { ctx: self }
    }

    /// The endless sequence of the values of `gaussian_draws`. What it draws is gone
    /// from this generator once the sequence is let go.
    pub fn gaussian_draws_iter(&mut self) -> (it: GaussianDrawsIter<'_>)
        ensures
            it.ctx@ == old(self)@,
            final(self)@ == final(it.ctx)@,
    {
        GaussianDrawsIter { ctx: self }
    }

    /// The endless sequence of the values of `poisson_draws`. What it draws is gone
    /// from this generator once the sequence is let go.
    pub fn poisson_draws_iter(&mut self) -> (it: PoissonDrawsIter<'_>)
        ensures
            it.ctx@ == old(self)@,
            final(self)@ == final(it.ctx)@,
    {
        PoissonDrawsIter { ctx: self }
    }
}

/// The offset that follows `delta`: one more, and zero after the largest.
pub open spec fn next_offset(delta: u128) -> u128 {
    if delta == u128::MAX {
        0
    } else {
        (delta + 1) as u128
    }
}

/// The values of `peek_range` at the offsets zero, one, two and so on, seen
/// ahead of the generator that `ctx` borrows.
pub struct PeekRangeIter<'a> {
    pub ctx: &'a OrangeyCtx,
    pub delta: u128,
    pub range: Range<u64>,
}

impl<'a> PeekRangeIter<'a> {
    /// The value at the present offset; the offset moves on by one.
    pub fn next(&mut self) -> (r: Option<u64>)
        ensures
            r == Some(old(self).ctx@.after(old(self).delta as nat).range_value(low_bound(old(self).range), high_bound(old(self).range)) as u64),
            final(self).ctx == old(self).ctx,
            final(self).delta == next_offset(old(self).delta),
            final(self).range == old(self).range,
    {
        let previous_delta = self.delta;
        self.delta = self.delta.wrapping_add(1);
        Some(self.ctx.peek_range(previous_delta, Range { start: self.range.start, end: self.range.end }))
    }
}

/// The values of `peek_uniform_double_bits` at the offsets zero, one, two and so on, seen
/// ahead of the generator that `ctx` borrows.
pub struct PeekUniformDoubleBitsIter<'a> {
    pub ctx: &'a OrangeyCtx,
    pub delta: u128,
}

impl<'a> PeekUniformDoubleBitsIter<'a> {
    /// The value at the present offset; the offset moves on by one.
    pub fn next(&mut self) -> (r: Option<u64>)
        ensures
            r == Some(unit_bits(old(self).ctx@.draw(old(self).delta as nat))),
            final(self).ctx == old(self).ctx,
            final(self).delta == next_offset(old(self).delta),
    {
        let previous_delta = self.delta;
        self.delta = self.delta.wrapping_add(1);
        Some(self.ctx.peek_uniform_double_bits(previous_delta))
    }
}

/// The values of `peek_all_doubles_parts` at the offsets zero, one, two and so on, seen
/// ahead of the generator that `ctx` borrows.
pub struct PeekAllDoublesPartsIter<'a> {
    pub ctx: &'a OrangeyCtx,
    pub delta: u128,
}

impl<'a> PeekAllDoublesPartsIter<'a> {
    /// The value at the present offset; the offset moves on by one.
    pub fn next(&mut self) -> (r: Option<Option<Scaled>>)
        ensures
            r == Some(old(self).ctx@.after(old(self).delta as nat).all_doubles_value()),
            final(self).ctx == old(self).ctx,
            final(self).delta == next_offset(old(self).delta),
    {
        let previous_delta = self.delta;
        self.delta = self.delta.wrapping_add(1);
        Some(self.ctx.peek_all_doubles_parts(previous_delta))
    }
}

/// The values of `peek_gaussian_draws` at the offsets zero, one, two and so on, seen
/// ahead of the generator that `ctx` borrows.
pub struct PeekGaussianDrawsIter<'a> {
    pub ctx: &'a OrangeyCtx,
    pub delta: u128,
}

impl<'a> PeekGaussianDrawsIter<'a> {
    /// The value at the present offset; the offset moves on by one.
    pub fn next(&mut self) -> (r: Option<(u64, u64)>)
        ensures
            r == Some(old(self).ctx@.after(old(self).delta as nat).gaussian_value()),
            final(self).ctx == old(self).ctx,
            final(self).delta == next_offset(old(self).delta),
    {
        let previous_delta = self.delta;
        self.delta = self.delta.wrapping_add(1);
        Some(self.ctx.peek_gaussian_draws(previous_delta))
    }
}

/// The values of `peek_poisson_draws` at the offsets zero, one, two and so on, seen
/// ahead of the generator that `ctx` borrows.
pub struct PeekPoissonDrawsIter<'a> {
    pub ctx: &'a OrangeyCtx,
    pub delta: u128,
}

impl<'a> PeekPoissonDrawsIter<'a> {
    /// The value at the present offset; the offset moves on by one.
    pub fn next(&mut self) -> (r: Option<(u64, u64)>)
        ensures
            r == Some(old(self).ctx@.after(old(self).delta as nat).poisson_value()),
            final(self).ctx == old(self).ctx,
            final(self).delta == next_offset(old(self).delta),
    {
        let previous_delta = self.delta;
        self.delta = self.delta.wrapping_add(1);
        Some(self.ctx.peek_poisson_draws(previous_delta))
    }
}

impl OrangeyCtx {
    /// The endless sequence of the values of `peek_range` at growing offsets,
    /// starting at offset zero. This generator is not moved.
    pub fn peek_range_iter(&self, range: Range<u64>) -> (it: PeekRangeIter<'_>)
        ensures
            it.ctx == self,
            it.delta == 0,
            it.range == range,
    {
        PeekRangeIter { ctx: self, delta: 0, range }
    }

    /// The endless sequence of the values of `peek_uniform_double_bits` at growing offsets,
    /// starting at offset zero. This generator is not moved.
    pub fn peek_uniform_double_bits_iter(&self) -> (it: PeekUniformDoubleBitsIter<'_>)
        ensures
            it.ctx == self,
            it.delta == 0,
    {
        PeekUniformDoubleBitsIter { ctx: self, delta: 0 }
    }

    /// The endless sequence of the values of `peek_all_doubles_parts` at growing offsets,
    /// starting at offset zero. This generator is not moved.
    pub fn peek_all_doubles_parts_iter(&self) -> (it: PeekAllDoublesPartsIter<'_>)
        ensures
            it.ctx == self,
            it.delta == 0,
    {
        PeekAllDoublesPartsIter { ctx: self, delta: 0 }
    }

    /// The endless sequence of the values of `peek_gaussian_draws` at growing offsets,
    /// starting at offset zero. This generator is not moved.
    pub fn peek_gaussian_draws_iter(&self) -> (it: PeekGaussianDrawsIter<'_>)
        ensures
            it.ctx == self,
            it.delta == 0,
    {
        PeekGaussianDrawsIter { ctx: self, delta: 0 }
    }

    /// The endless sequence of the values of `peek_poisson_draws` at growing offsets,
    /// starting at offset zero. This generator is not moved.
    pub fn peek_poisson_draws_iter(&self) -> (it: PeekPoissonDrawsIter<'_>)
        ensures
            it.ctx == self,
            it.delta == 0,
    {
        PeekPoissonDrawsIter { ctx: self, delta: 0 }
    }
}

} // verus!
