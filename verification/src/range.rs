//! Unbiased integers in a half-open range, by rejection.

use crate::generator::OrangeyCtx;
use crate::period::lemma_reaches;
use crate::stream::{permute, Stream};
use core::ops::Range;
use vstd::arithmetic::div_mod::*;
use vstd::prelude::*;

verus! {

/// The smaller of the two bounds of `range`.
pub open spec fn low_bound(range: Range<u64>) -> u64 {
    if range.start <= range.end {
        range.start
    } else {
        range.end
    }
}

/// The larger of the two bounds of `range`.
pub open spec fn high_bound(range: Range<u64>) -> u64 {
    if range.start <= range.end {
        range.end
    } else {
        range.start
    }
}

/// The number of raw values below which a draw is rejected: two to the power
/// 64 modulo `width`. The raw values from there on fall into `width` classes
/// of equal size.
pub open spec fn threshold(width: u64) -> int
    recommends
        width > 0,
{
    0x1_0000_0000_0000_0000int % (width as int)
}

impl Stream {
    /// The `k`-th raw value ahead is accepted for `width`, and none before it
    /// is.
    pub open spec fn first_accepted(self, width: u64, k: nat) -> bool {
        &&& self.draw(k) >= threshold(width)
        &&& forall|j: nat| j < k ==> self.draw(j) < threshold(width)
    }

    /// How many raw values ahead are rejected for `width` before one is
    /// accepted.
    pub open spec fn rejections(self, width: u64) -> nat {
        choose|k: nat| self.first_accepted(width, k)
    }

    /// The number drawn from `[lo, hi)`: `lo` itself where the range is
    /// empty, else `lo` plus the first accepted raw value modulo the width.
    pub open spec fn range_value(self, lo: u64, hi: u64) -> int
        recommends
            lo <= hi,
    {
        if lo == hi {
            lo as int
        } else {
            let width = (hi - lo) as u64;
            lo + self.draw(self.rejections(width)) % width
        }
    }

    /// Where the stream stands once a number was drawn from `[lo, hi)`: where
    /// it stood if the range is empty, else behind the first accepted raw
    /// value.
    pub open spec fn range_rest(self, lo: u64, hi: u64) -> Stream
        recommends
            lo <= hi,
    {
        if lo == hi {
            self
        } else {
            self.after(self.rejections((hi - lo) as u64) + 1)
        }
    }
}

/// Only one index can be that of the first accepted raw value.
pub proof fn lemma_first_accepted_unique(s: Stream, width: u64, k: nat)
    requires
        s.first_accepted(width, k),
    ensures
        s.rejections(width) == k,
{
    let c = s.rejections(width);
    assert(s.first_accepted(width, c));
    if c < k {
        assert(s.draw(c) < threshold(width));
    }
    if k < c {
        assert(s.draw(k) < threshold(width));
    }
}

/// The state whose low half is all ones and whose high half is zero puts out
/// the largest raw value.
proof fn lemma_largest_output()
    ensures
        permute(0xFFFF_FFFF_FFFF_FFFFu128) == u64::MAX,
{
    assert(permute(0xFFFF_FFFF_FFFF_FFFFu128) == 0xFFFF_FFFF_FFFF_FFFFu64) by (bit_vector);
}

/// On every stream with an odd increment the largest raw value lies ahead.
/// Its index is returned.
pub proof fn lemma_largest_draw_ahead(s: Stream) -> (k: nat)
    requires
        s.wf(),
    ensures
        k <= u128::MAX,
        s.draw(k) == u64::MAX,
{
    let k = lemma_reaches(s.after(1), 0xFFFF_FFFF_FFFF_FFFFu128);
    crate::affine::lemma_iterate_adds(s.raw_step(), s.state, 1, k);
    lemma_largest_output();
    k
}

/// Masking with a single-bit width less one is the remainder modulo the
/// width.
pub proof fn lemma_single_bit_mask(width: u64, x: u64)
    requires
        width > 0,
        width & ((width - 1) as u64) == 0,
    ensures
        x & ((width - 1) as u64) == x % width,
    decreases width,
{
    if width == 1 {
        assert(x & 0 == 0) by (bit_vector);
    } else {
        let half = width / 2;
        assert(width % 2 == 0 && half > 0 && half & ((half - 1) as u64) == 0) by (bit_vector)
            requires
                width > 1,
                width & ((width - 1) as u64) == 0,
                half == width / 2,
        ;
        assert(x & ((width - 1) as u64) == 2 * ((x / 2) & ((half - 1) as u64)) + x % 2)
            by (bit_vector)
            requires
                width > 1,
                width % 2 == 0,
                half == width / 2,
        ;
        lemma_single_bit_mask(half, x / 2);
        lemma_mod_breakdown(x as int, 2, half as int);
    }
}

/// A width with a single bit set divides two to the power 64.
pub proof fn lemma_single_bit_threshold(width: u64)
    requires
        width > 0,
        width & ((width - 1) as u64) == 0,
    ensures
        threshold(width) == 0,
{
    let top = u64::MAX;
    lemma_single_bit_mask(width, top);
    assert(top & ((width - 1) as u64) == (width - 1) as u64) by (bit_vector)
        requires
            top == u64::MAX,
            width > 0,
    ;
    lemma_add_mod_noop(top as int, 1, width as int);
    if width > 1 {
        lemma_small_mod(1, width as nat);
        lemma_mod_self_0(width as int);
    }
}

impl OrangeyCtx {
    /// A number from the half-open range between the two bounds of `range`,
    /// each as likely as the other. The bounds may come in either order; where
    /// they are equal, that bound is returned and nothing is drawn.
    ///
    /// Raw values below `threshold(width)` are passed over, so that the ones
    /// that count fall evenly into the classes modulo the width. The
    /// generator ends up behind the raw value that was taken.
    pub fn rand_range(&mut self, range: Range<u64>) -> (r: u64)
        ensures
            r == old(self)@.range_value(low_bound(range), high_bound(range)),
            final(self)@ == old(self)@.range_rest(low_bound(range), high_bound(range)),
            final(self)@.wf(),
            low_bound(range) <= r,
            r < high_bound(range) || r == high_bound(range) == low_bound(range),
    {
        let (lo, hi) = if range.start <= range.end {
            (range.start, range.end)
        } else {
            (range.end, range.start)
        };
        let ghost start = self@;
        proof {
            use_type_invariant(&*self);
        }
        let distance = hi - lo;
        if distance == 0 {
            return lo;
        }
        if distance & (distance - 1) == 0 {
            let raw = self.rand();
            proof {
                lemma_single_bit_mask(distance, raw);
                lemma_single_bit_threshold(distance);
                lemma_first_accepted_unique(start, distance, 0);
                lemma_mod_bound(raw as int, distance as int);
            }
            return (raw & (distance - 1)) + lo;
        }
        let limit = 0u64.wrapping_sub(distance) % distance;
        proof {
            lemma_mod_sub_multiples_vanish(0x1_0000_0000_0000_0000int, distance as int);
        }
        assert(limit == threshold(distance));
        let ghost last = lemma_largest_draw_ahead(start);
        let mut i: u128 = 0;
        loop
            invariant
                self@ == start,
                i <= last <= u128::MAX,
                start.draw(last as nat) == u64::MAX,
                forall|j: nat| j < i ==> start.draw(j) < limit,
            ensures
                self@ == start,
                start.draw(i as nat) >= limit,
                forall|j: nat| j < i ==> start.draw(j) < limit,
            decreases last - i,
        {
            let r = self.peek(i);
            if r >= limit {
                break ;
            }
            i += 1;
        }
        self.skip(i);
        let r = self.rand();
        proof {
            crate::affine::lemma_iterate_adds(start.raw_step(), start.state, i as nat, 1);
            lemma_first_accepted_unique(start, distance, i as nat);
            lemma_mod_bound(r as int, distance as int);
        }
        lo + r % distance
    }

    /// What `rand_range(range)` would return after `delta` raw values were
    /// drawn; the generator stays where it is.
    pub fn peek_range(&self, delta: u128, range: Range<u64>) -> (r: u64)
        ensures
            r == self@.after(delta as nat).range_value(low_bound(range), high_bound(range)),
            low_bound(range) <= r,
            r < high_bound(range) || r == high_bound(range) == low_bound(range),
    {
        let mut ahead = self.fork();
        ahead.skip(delta);
        ahead.rand_range(range)
    }
}

} // verus!
