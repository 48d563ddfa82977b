//! What holds of the samplers taken together: the same place gives the same
//! values, a jump is as good as that many single steps, looking ahead by
//! nothing is drawing, and a number from a range lies in it.

use crate::doubles::{lemma_first_nonzero_unique, lemma_normalized, normalized, unit_bits};
use crate::range::{lemma_first_accepted_unique, lemma_largest_draw_ahead, threshold};
use crate::stream::{lemma_after_adds, Stream};
use vstd::arithmetic::div_mod::*;
use vstd::arithmetic::power2::is_pow2;
use vstd::prelude::*;
use vstd::std_specs::bits::u64_leading_zeros;

verus! {

/// Where a stream stands after `n` calls of `rand`, each of which takes it one
/// raw step on.
pub open spec fn after_rands(s: Stream, n: nat) -> Stream
    decreases n,
{
    if n == 0 {
        s
    } else {
        after_rands(s, (n - 1) as nat).after(1)
    }
}

/// Two generators that agree in state and increment agree in every value
/// that a sampler draws from them, and in where the sampler leaves them.
pub proof fn lemma_same_place_same_values(a: Stream, b: Stream, delta: nat, lo: u64, hi: u64)
    requires
        a.state == b.state,
        a.inc == b.inc,
    ensures
        a.draw(delta) == b.draw(delta),
        a.after(delta) == b.after(delta),
        a.range_value(lo, hi) == b.range_value(lo, hi),
        a.range_rest(lo, hi) == b.range_rest(lo, hi),
        a.all_doubles_value() == b.all_doubles_value(),
        a.all_doubles_rest() == b.all_doubles_rest(),
        a.gaussian_value() == b.gaussian_value(),
        a.gaussian_rest() == b.gaussian_rest(),
        a.poisson_value() == b.poisson_value(),
{
}

/// A jump over `k` values leaves the stream where `k` calls of `rand` leave
/// it, so the value drawn after the jump is the last of `k + 1` values drawn
/// without it.
pub proof fn lemma_jump_consistency(s: Stream, k: nat)
    ensures
        s.after(k) == after_rands(s, k),
        s.after(k).draw(0) == after_rands(s, k + 1).output(),
    decreases k,
{
    if k > 0 {
        lemma_jump_consistency(s, (k - 1) as nat);
        lemma_after_adds(s, (k - 1) as nat, 1);
    }
    lemma_after_adds(s, k, 1);
    assert(after_rands(s, k + 1) == after_rands(s, k).after(1));
}

/// Looking ahead by nothing shows what the next draw gives: a peek at offset
/// zero and the sampler itself return the same value.
pub proof fn lemma_peek_zero_is_next(s: Stream, lo: u64, hi: u64)
    ensures
        s.after(0) == s,
        s.draw(0) == s.after(1).output(),
        s.after(0).range_value(lo, hi) == s.range_value(lo, hi),
        unit_bits(s.after(0).draw(0)) == unit_bits(s.draw(0)),
        s.after(0).all_doubles_value() == s.all_doubles_value(),
        s.after(0).gaussian_value() == s.gaussian_value(),
        s.after(0).poisson_value() == s.poisson_value(),
{
}

/// Looking ahead by `delta` shows what the sampler gives once `delta` raw
/// values were drawn: the raw value seen at offset `delta` is the one drawn
/// after a jump over `delta`.
pub proof fn lemma_peek_is_draw_after_skip(s: Stream, delta: nat)
    ensures
        s.draw(delta) == s.after(delta).draw(0),
{
    lemma_after_adds(s, delta, 0);
}

/// The least index from `from` on whose raw value is accepted, given that
/// the one at `last` is and none before `from` is.
proof fn lemma_least_accepted(s: Stream, width: u64, from: nat, last: nat) -> (k: nat)
    requires
        from <= last,
        s.draw(last) >= threshold(width),
        forall|j: nat| j < from ==> s.draw(j) < threshold(width),
    ensures
        s.first_accepted(width, k),
    decreases last - from,
{
    if s.draw(from) >= threshold(width) {
        from
    } else {
        lemma_least_accepted(s, width, from + 1, last)
    }
}

/// On a stream with an odd increment some raw value ahead is accepted for
/// every width, so the count of rejections before it is that of the first
/// accepted one.
pub proof fn lemma_some_draw_accepted(s: Stream, width: u64)
    requires
        s.wf(),
        width > 0,
    ensures
        s.first_accepted(width, s.rejections(width)),
{
    let last = lemma_largest_draw_ahead(s);
    lemma_mod_bound(0x1_0000_0000_0000_0000int, width as int);
    let k = lemma_least_accepted(s, width, 0, last);
    lemma_first_accepted_unique(s, width, k);
}

/// A number drawn from a range lies in it: at or above the lower bound and
/// below the upper bound, or at both where they are equal.
pub proof fn lemma_range_value_in_bounds(s: Stream, lo: u64, hi: u64)
    requires
        lo <= hi,
    ensures
        lo <= s.range_value(lo, hi),
        s.range_value(lo, hi) < hi || s.range_value(lo, hi) == lo == hi,
{
    if lo < hi {
        let width = (hi - lo) as u64;
        lemma_mod_bound(s.draw(s.rejections(width)) as int, width as int);
    }
}

/// A width that is a power of two has one bit set.
proof fn lemma_pow2_single_bit(width: u64)
    requires
        is_pow2(width as int),
    ensures
        width > 0,
        width & ((width - 1) as u64) == 0,
    decreases width,
{
    reveal(is_pow2);
    if width == 1 {
        assert(1u64 & 0u64 == 0) by (bit_vector);
    } else {
        let half = width / 2;
        lemma_pow2_single_bit(half);
        assert(width & ((width - 1) as u64) == 0) by (bit_vector)
            requires
                width > 1,
                width % 2 == 0,
                half == width / 2,
                half & ((half - 1) as u64) == 0,
        ;
    }
}

/// For a width that is a power of two nothing is rejected: the number drawn
/// is the lower bound plus the next raw value masked with the width less one,
/// and the stream moves on by one raw step.
pub proof fn lemma_power_of_two_width(s: Stream, lo: u64, hi: u64)
    requires
        lo < hi,
        is_pow2(hi - lo),
    ensures
        threshold((hi - lo) as u64) == 0,
        s.rejections((hi - lo) as u64) == 0,
        s.range_value(lo, hi) == lo + (s.draw(0) & ((hi - lo - 1) as u64)),
        s.range_rest(lo, hi) == s.after(1),
{
    let width = (hi - lo) as u64;
    lemma_pow2_single_bit(width);
    crate::range::lemma_single_bit_mask(width, s.draw(0));
    crate::range::lemma_single_bit_threshold(width);
    lemma_first_accepted_unique(s, width, 0);
}

/// Where the next raw value is not zero, it alone is scaled: its bits are the
/// first 64 places behind the point, so the exponent is -64 less its leading
/// zeros, the places that open up are filled from the raw value two places
/// on, and the stream moves on by one raw step.
pub proof fn lemma_all_doubles_of_nonzero_draw(s: Stream)
    requires
        s.draw(0) != 0,
    ensures
        s.all_doubles_value() == Some(normalized(s.draw(0), s.draw(2), 0)),
        s.all_doubles_rest() == s.after(1),
        normalized(s.draw(0), s.draw(2), 0).exponent == -64 - u64_leading_zeros(s.draw(0)),
        normalized(s.draw(0), s.draw(2), 0).significand >= 0x8000_0000_0000_0000,
{
    assert(s.first_nonzero(0));
    lemma_first_nonzero_unique(s, 0);
    lemma_normalized(s.draw(0), s.draw(2), 0);
}

} // verus!
