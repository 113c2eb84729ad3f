//! Ranged axis specifications: pure value-to-pixel-offset mapping for one
//! axis, key-point selection for gridline placement, and label formatting.
//!
//! An axis maps a guest-coordinate value into a closed pixel interval
//! `(p0, p1)`; the interval may be given in either orientation, and an
//! inverted interval (`p0 > p1`) yields the mirrored, consistently
//! antitone mapping.  Continuous values are fixed-point integers so that
//! the mapping arithmetic is exact.

use vstd::arithmetic::div_mod::{
    lemma_div_basics_5, lemma_div_is_ordered, lemma_div_multiples_vanish, lemma_div_pos_is_pos,
};
use vstd::arithmetic::mul::{lemma_mul_inequality, lemma_mul_nonnegative, lemma_mul_upper_bound};
use vstd::prelude::*;

use crate::decimal::{format_value, int_rep};

verus! {

/// Largest magnitude a guest-coordinate value (or discrete index count)
/// may have; keeps every intermediate mapping product well inside `u128`.
pub const AXIS_BOUND: i64 = 1_000_000_000_000;

/// The specification of one axis of guest coordinates.
#[derive(Clone, Copy, PartialEq, Eq, Structural)]
pub enum AxisSpec {
    /// A continuous ascending range of fixed-point values `from..=to`.
    Linear { from: i64, to: i64 },
    /// A discrete enumeration of the indices `0..count`.
    Discrete { count: i64 },
}

/// Midpoint of a pixel interval, the deterministic fallback offset for a
/// degenerate (zero-width) value range.
pub open spec fn pix_mid(p0: int, p1: int) -> int {
    if p0 <= p1 {
        p0 + (p1 - p0) / 2
    } else {
        p0 - (p0 - p1) / 2
    }
}

/// Linear interpolation of `v` in `from..=to` onto the pixel interval
/// `(p0, p1)`, inclusive at both ends; a degenerate value range maps to
/// the pixel midpoint.
pub open spec fn lin_map(from: int, to: int, v: int, p0: int, p1: int) -> int {
    if from == to {
        pix_mid(p0, p1)
    } else {
        if p0 <= p1 {
            p0 + ((v - from) * (p1 - p0)) / (to - from)
        } else {
            p0 - ((v - from) * (p0 - p1)) / (to - from)
        }
    }
}

impl AxisSpec {
    /// Well-formedness: the declared ordering is ascending and magnitudes
    /// are bounded so mapping arithmetic cannot overflow.
    pub open spec fn wf(self) -> bool {
        match self {
            AxisSpec::Linear { from, to } => -AXIS_BOUND <= from <= to <= AXIS_BOUND,
            AxisSpec::Discrete { count } => 1 <= count <= AXIS_BOUND,
        }
    }

    /// The declared value domain of the axis.
    pub open spec fn in_domain(self, v: int) -> bool {
        match self {
            AxisSpec::Linear { from, to } => from <= v <= to,
            AxisSpec::Discrete { count } => 0 <= v < count,
        }
    }

    /// Lowest value of the domain.
    pub open spec fn low(self) -> int {
        match self {
            AxisSpec::Linear { from, .. } => from as int,
            AxisSpec::Discrete { .. } => 0,
        }
    }

    /// Highest value of the domain.
    pub open spec fn high(self) -> int {
        match self {
            AxisSpec::Linear { to, .. } => to as int,
            AxisSpec::Discrete { count } => count - 1,
        }
    }

    /// Where `v` is mapped within the pixel interval `(p0, p1)`.
    pub open spec fn map_spec(self, v: int, p0: int, p1: int) -> int {
        lin_map(self.low(), self.high(), v, p0, p1)
    }

    /// The label text of a value: its decimal digit string.
    pub open spec fn format_spec(self, v: int) -> Seq<char> {
        int_rep(v)
    }

    /// The representative gridline values for at most `max` ticks:
    /// a continuous axis takes `max` evenly spaced values including both
    /// endpoints, a discrete axis enumerates its indices exactly when they
    /// fit and falls back to its endpoints otherwise.
    pub open spec fn key_points_spec(self, max: int) -> Seq<int> {
        if max <= 0 {
            Seq::empty()
        } else {
            match self {
                AxisSpec::Linear { from, to } => {
                    if from == to || max == 1 {
                        seq![from as int]
                    } else {
                        Seq::new(max as nat, |k: int| from + (k * (to - from)) / (max - 1))
                    }
                },
                AxisSpec::Discrete { count } => {
                    if count <= max {
                        Seq::new(count as nat, |k: int| k)
                    } else if max == 1 {
                        seq![0int]
                    } else {
                        seq![0int, count - 1]
                    }
                },
            }
        }
    }
}

/// Core fact about the interpolation offset: for `v` within `from..=to`
/// (non-degenerate) the offset `((v - from) * w) / (to - from)` lies in
/// `[0, w]` for any pixel width `w >= 0`.
proof fn lemma_off_bounds(from: int, to: int, v: int, w: int)
    requires
        from <= v <= to,
        from < to,
        w >= 0,
    ensures
        0 <= ((v - from) * w) / (to - from) <= w,
{
    let a = v - from;
    let d = to - from;
    lemma_mul_nonnegative(a, w);
    lemma_div_pos_is_pos(a * w, d);
    lemma_mul_inequality(a, d, w);
    lemma_div_is_ordered(a * w, d * w, d);
    lemma_div_multiples_vanish(w, d);
}

/// The offset grows with the value: interpolation is monotone.
proof fn lemma_off_monotone(from: int, to: int, v1: int, v2: int, w: int)
    requires
        from <= v1 <= v2 <= to,
        from < to,
        w >= 0,
    ensures
        ((v1 - from) * w) / (to - from) <= ((v2 - from) * w) / (to - from),
{
    lemma_mul_inequality(v1 - from, v2 - from, w);
    lemma_div_is_ordered((v1 - from) * w, (v2 - from) * w, to - from);
}

/// Every mapped value of a well-formed axis lies within the pixel
/// interval, inclusive at both ends, whichever way the interval is
/// oriented.
pub proof fn lemma_map_in_range(a: AxisSpec, v: int, p0: int, p1: int)
    requires
        a.wf(),
        a.in_domain(v),
    ensures
        p0 <= p1 ==> p0 <= a.map_spec(v, p0, p1) <= p1,
        p1 <= p0 ==> p1 <= a.map_spec(v, p0, p1) <= p0,
{
    let lo = a.low();
    let hi = a.high();
    if lo == hi {
        if p0 <= p1 {
            lemma_div_pos_is_pos(p1 - p0, 2);
            lemma_div_basics_5(p1 - p0, 2);
        } else {
            lemma_div_pos_is_pos(p0 - p1, 2);
            lemma_div_basics_5(p0 - p1, 2);
        }
    } else {
        if p0 <= p1 {
            lemma_off_bounds(lo, hi, v, p1 - p0);
        } else {
            lemma_off_bounds(lo, hi, v, p0 - p1);
        }
    }
}

/// Mapping is monotone over the axis domain: an upright pixel interval
/// (`p0 <= p1`) preserves the value order, an inverted one reverses it
/// consistently.
pub proof fn lemma_map_monotone(a: AxisSpec, v1: int, v2: int, p0: int, p1: int)
    requires
        a.wf(),
        a.in_domain(v1),
        a.in_domain(v2),
        v1 <= v2,
    ensures
        p0 <= p1 ==> a.map_spec(v1, p0, p1) <= a.map_spec(v2, p0, p1),
        p1 <= p0 ==> a.map_spec(v2, p0, p1) <= a.map_spec(v1, p0, p1),
{
    let lo = a.low();
    let hi = a.high();
    if lo != hi {
        if p0 == p1 {
            lemma_off_bounds(lo, hi, v1, 0);
            lemma_off_bounds(lo, hi, v2, 0);
        } else if p0 < p1 {
            lemma_off_monotone(lo, hi, v1, v2, p1 - p0);
        } else {
            lemma_off_monotone(lo, hi, v1, v2, p0 - p1);
        }
    }
}

/// Maps `v` from the value range `from..=to` onto the pixel interval
/// `(p0, p1)`.
fn map_linear(from: i64, to: i64, v: i64, p0: i32, p1: i32) -> (r: i32)
    requires
        -AXIS_BOUND <= from <= to <= AXIS_BOUND,
        from <= v <= to,
    ensures
        r == lin_map(from as int, to as int, v as int, p0 as int, p1 as int),
{
    if from == to {
        if p0 <= p1 {
            let w: u64 = (p1 as i64 - p0 as i64) as u64;
            let r: i64 = p0 as i64 + (w / 2) as i64;
            r as i32
        } else {
            let w: u64 = (p0 as i64 - p1 as i64) as u64;
            let r: i64 = p0 as i64 - (w / 2) as i64;
            r as i32
        }
    } else {
        let a: u64 = (v - from) as u64;
        let d: u64 = (to - from) as u64;
        let w: u64 = if p0 <= p1 {
            (p1 as i64 - p0 as i64) as u64
        } else {
            (p0 as i64 - p1 as i64) as u64
        };
        proof {
            lemma_mul_upper_bound(a as int, 2 * AXIS_BOUND as int, w as int, 0x1_0000_0000);
            lemma_mul_nonnegative(a as int, w as int);
            lemma_mul_inequality(a as int, d as int, w as int);
            lemma_div_is_ordered(a as int * w as int, d as int * w as int, d as int);
            lemma_div_multiples_vanish(w as int, d as int);
            lemma_div_pos_is_pos(a as int * w as int, d as int);
        }
        let off: u128 = (a as u128) * (w as u128) / (d as u128);
        if p0 <= p1 {
            let r: i128 = p0 as i128 + off as i128;
            r as i32
        } else {
            let r: i128 = p0 as i128 - off as i128;
            r as i32
        }
    }
}

impl AxisSpec {
    /// Maps a guest value onto the pixel interval `(p0, p1)`, inclusive
    /// at both ends for the domain's boundary values; a degenerate value
    /// range maps everything to the interval midpoint.
    pub fn map(&self, v: i64, pixel_range: (i32, i32)) -> (r: i32)
        requires
            self.wf(),
            self.in_domain(v as int),
        ensures
            r == self.map_spec(v as int, pixel_range.0 as int, pixel_range.1 as int),
            pixel_range.0 <= pixel_range.1 ==> pixel_range.0 <= r <= pixel_range.1,
            pixel_range.1 <= pixel_range.0 ==> pixel_range.1 <= r <= pixel_range.0,
    {
        proof {
            lemma_map_in_range(
                *self,
                v as int,
                pixel_range.0 as int,
                pixel_range.1 as int,
            );
        }
        match self {
            AxisSpec::Linear { from, to } => map_linear(*from, *to, v, pixel_range.0, pixel_range.1),
            AxisSpec::Discrete { count } => map_linear(0, *count - 1, v, pixel_range.0, pixel_range.1),
        }
    }

    /// Returns at most `max_count` representative values of the axis,
    /// used to place gridlines and ticks.
    pub fn key_points(&self, max_count: usize) -> (r: Vec<i64>)
        requires
            self.wf(),
        ensures
            r@.len() == self.key_points_spec(max_count as int).len(),
            forall|i: int|
                0 <= i < r@.len() ==> r@[i] as int == self.key_points_spec(max_count as int)[i],
            forall|i: int| 0 <= i < r@.len() ==> self.in_domain(#[trigger] r@[i] as int),
            r@.len() <= max_count,
    {
        let mut r: Vec<i64> = Vec::new();
        if max_count == 0 {
            return r;
        }
        match self {
            AxisSpec::Linear { from, to } => {
                if *from == *to || max_count == 1 {
                    r.push(*from);
                } else {
                    let diff: u64 = (*to - *from) as u64;
                    let den: u64 = (max_count - 1) as u64;
                    let mut k: usize = 0;
                    while k < max_count
                        invariant
                            self.wf(),
                            *self == (AxisSpec::Linear { from: *from, to: *to }),
                            *from < *to,
                            2 <= max_count,
                            diff == *to - *from,
                            den == max_count - 1,
                            k <= max_count,
                            r@.len() == k,
                            forall|i: int|
                                0 <= i < k ==> r@[i] as int == self.key_points_spec(
                                    max_count as int,
                                )[i],
                            forall|i: int|
                                0 <= i < k ==> self.in_domain(#[trigger] r@[i] as int),
                        decreases max_count - k,
                    {
                        proof {
                            lemma_mul_upper_bound(k as int, den as int, diff as int, 2 * AXIS_BOUND as int);
                            lemma_mul_nonnegative(k as int, diff as int);
                            lemma_mul_inequality(k as int, den as int, diff as int);
                            lemma_div_is_ordered(k as int * diff as int, den as int * diff as int, den as int);
                            lemma_div_multiples_vanish(diff as int, den as int);
                            lemma_div_pos_is_pos(k as int * diff as int, den as int);
                            assert(k as int * diff as int <= den as int * (2 * AXIS_BOUND as int));
                            assert(den as int * (2 * AXIS_BOUND as int) < u128::MAX) by (nonlinear_arith)
                                requires
                                    0 <= den as int <= u64::MAX,
                            ;
                        }
                        let off: u128 = (k as u128) * (diff as u128) / (den as u128);
                        let val: i64 = *from + off as i64;
                        r.push(val);
                        k = k + 1;
                    }
                }
            },
            AxisSpec::Discrete { count } => {
                if (*count) as u64 <= max_count as u64 {
                    let mut k: i64 = 0;
                    while k < *count
                        invariant
                            self.wf(),
                            *self == (AxisSpec::Discrete { count: *count }),
                            *count as u64 <= max_count as u64,
                            1 <= max_count,
                            0 <= k <= *count,
                            r@.len() == k,
                            forall|i: int|
                                0 <= i < k ==> r@[i] as int == self.key_points_spec(
                                    max_count as int,
                                )[i],
                            forall|i: int|
                                0 <= i < k ==> self.in_domain(#[trigger] r@[i] as int),
                        decreases *count - k,
                    {
                        r.push(k);
                        k = k + 1;
                    }
                } else if max_count == 1 {
                    r.push(0);
                } else {
                    r.push(0);
                    r.push(*count - 1);
                }
            },
        }
        r
    }

    /// Formats a guest value as its label text.
    pub fn format_ext(&self, v: i64) -> (r: String)
        requires
            self.wf(),
            self.in_domain(v as int),
        ensures
            r@ == self.format_spec(v as int),
    {
        format_value(v)
    }
}

} // verus!
