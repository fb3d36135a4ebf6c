//! Color interpolation: mapping a unit-interval load value and two
//! endpoint colors to one or more LED colors.
//!
//! Load values are carried as fixed-point fractions of [`LOAD_SCALE`], so
//! every interpolation is exact integer arithmetic.

use vstd::prelude::*;

verus! {

/// Denominator of the fixed-point load representation: a [`Load`] of
/// `LOAD_SCALE` units stands for a fully busy (1.0) signal.
pub const LOAD_SCALE: u32 = 1000000;

/// An RGB color: an ordered triple of 8-bit channel intensities.
#[derive(Clone, Copy, Debug, PartialEq, Eq, Structural)]
pub struct ColorRgb {
    pub r: u8,
    pub g: u8,
    pub b: u8,
}

/// A utilization value in the closed unit interval, held as `units`
/// parts of [`LOAD_SCALE`].
#[derive(Clone, Copy, Debug, PartialEq, Eq, Structural)]
pub struct Load {
    pub units: u32,
}

impl Load {
    /// A load is valid when it does not exceed the scale, i.e. lies in [0, 1].
    pub open spec fn is_valid(self) -> bool {
        self.units <= LOAD_SCALE
    }

    /// The complementary load `1 - self`.
    pub fn invert(self) -> (r: Load)
        requires
            self.is_valid(),
        ensures
            r.units == LOAD_SCALE - self.units,
            r.is_valid(),
    {
        Load { units: LOAD_SCALE - self.units }
    }
}

/// One channel of the linear interpolation `(1 - t) * a + t * b`, with the
/// factor `t` given in units of [`LOAD_SCALE`] and the result truncated to
/// an integer.
pub open spec fn lerp_channel(t: int, a: int, b: int) -> int {
    ((LOAD_SCALE - t) * a + t * b) / (LOAD_SCALE as int)
}

/// The color whose channels interpolate between `start` and `end` at
/// factor `t` (in units of [`LOAD_SCALE`]).
pub open spec fn spec_lerp_color(t: int, start: ColorRgb, end: ColorRgb) -> ColorRgb {
    ColorRgb {
        r: lerp_channel(t, start.r as int, end.r as int) as u8,
        g: lerp_channel(t, start.g as int, end.g as int) as u8,
        b: lerp_channel(t, start.b as int, end.b as int) as u8,
    }
}

/// Law: an interpolated channel always lies between its two endpoints,
/// whichever of them is larger; so interpolation never extrapolates.
pub proof fn lemma_lerp_channel_bounds(t: int, a: int, b: int)
    requires
        0 <= t <= LOAD_SCALE,
        0 <= a <= 255,
        0 <= b <= 255,
    ensures
        a <= b ==> a <= lerp_channel(t, a, b) <= b,
        b <= a ==> b <= lerp_channel(t, a, b) <= a,
{
    let s = LOAD_SCALE as int;
    let num = (s - t) * a + t * b;
    if a <= b {
        assert(s * a <= num <= s * b) by (nonlinear_arith)
            requires
                0 <= t <= s,
                a <= b,
                num == (s - t) * a + t * b,
        ;
        vstd::arithmetic::div_mod::lemma_div_is_ordered(s * a, num, s);
        vstd::arithmetic::div_mod::lemma_div_is_ordered(num, s * b, s);
        vstd::arithmetic::div_mod::lemma_div_multiples_vanish(a, s);
        vstd::arithmetic::div_mod::lemma_div_multiples_vanish(b, s);
    } else {
        assert(s * b <= num <= s * a) by (nonlinear_arith)
            requires
                0 <= t <= s,
                b <= a,
                num == (s - t) * a + t * b,
        ;
        vstd::arithmetic::div_mod::lemma_div_is_ordered(s * b, num, s);
        vstd::arithmetic::div_mod::lemma_div_is_ordered(num, s * a, s);
        vstd::arithmetic::div_mod::lemma_div_multiples_vanish(a, s);
        vstd::arithmetic::div_mod::lemma_div_multiples_vanish(b, s);
    }
}

/// Law: interpolating at factor 0 yields the start color exactly, and at
/// the full factor the end color exactly.
pub proof fn lemma_lerp_color_endpoints(start: ColorRgb, end: ColorRgb)
    ensures
        spec_lerp_color(0, start, end) == start,
        spec_lerp_color(LOAD_SCALE as int, start, end) == end,
{
    let s = LOAD_SCALE as int;
    vstd::arithmetic::div_mod::lemma_div_multiples_vanish(start.r as int, s);
    vstd::arithmetic::div_mod::lemma_div_multiples_vanish(start.g as int, s);
    vstd::arithmetic::div_mod::lemma_div_multiples_vanish(start.b as int, s);
    vstd::arithmetic::div_mod::lemma_div_multiples_vanish(end.r as int, s);
    vstd::arithmetic::div_mod::lemma_div_multiples_vanish(end.g as int, s);
    vstd::arithmetic::div_mod::lemma_div_multiples_vanish(end.b as int, s);
}

/// One channel of the executable interpolation.
fn lerp_channel_exec(t: u32, a: u8, b: u8) -> (r: u8)
    requires
        t <= LOAD_SCALE,
    ensures
        r as int == lerp_channel(t as int, a as int, b as int),
{
    proof {
        vstd::arithmetic::mul::lemma_mul_upper_bound(
            (LOAD_SCALE - t) as int, LOAD_SCALE as int, a as int, 255);
        vstd::arithmetic::mul::lemma_mul_upper_bound(
            t as int, LOAD_SCALE as int, b as int, 255);
    }
    let num: u64 = (LOAD_SCALE - t) as u64 * a as u64 + t as u64 * b as u64;
    let q: u64 = num / LOAD_SCALE as u64;
    proof {
        lemma_lerp_channel_bounds(t as int, a as int, b as int);
    }
    q as u8
}

/// Per-channel linear interpolation between `start` and `end` at load `t`.
///
/// The caller must hand in a valid (already clamped) load; the function
/// performs no clamping of its own.
pub fn lerp_color(t: Load, start: &ColorRgb, end: &ColorRgb) -> (r: ColorRgb)
    requires
        t.is_valid(),
    ensures
        r == spec_lerp_color(t.units as int, *start, *end),
{
    proof {
        lemma_lerp_channel_bounds(t.units as int, start.r as int, end.r as int);
        lemma_lerp_channel_bounds(t.units as int, start.g as int, end.g as int);
        lemma_lerp_channel_bounds(t.units as int, start.b as int, end.b as int);
    }
    ColorRgb {
        r: lerp_channel_exec(t.units, start.r, end.r),
        g: lerp_channel_exec(t.units, start.g, end.g),
        b: lerp_channel_exec(t.units, start.b, end.b),
    }
}

/// Clamp of an integer to the closed interval `[lo, hi]`.
pub open spec fn clamp_int(x: int, lo: int, hi: int) -> int {
    if x < lo {
        lo
    } else if x > hi {
        hi
    } else {
        x
    }
}

/// The local interpolation factor of LED `i` in a gradient of `n` LEDs at
/// load `t` (units of [`LOAD_SCALE`]): the load scaled by `n`, shifted by
/// the LED's position, clamped to one LED's width.
pub open spec fn gradient_factor(t: int, n: int, i: int) -> int {
    clamp_int(t * n - i * (LOAD_SCALE as int), 0, LOAD_SCALE as int)
}

/// The uniform block assignment: `n` copies of the interpolated color.
pub open spec fn block_seq(t: int, start: ColorRgb, end: ColorRgb, n: int) -> Seq<ColorRgb> {
    Seq::new(n as nat, |i: int| spec_lerp_color(t, start, end))
}

/// The gradient assignment: LED `i` shows its local factor's color, so the
/// leading fraction of the strip appears end-colored with a one-LED
/// transition band.
pub open spec fn gradient_seq(t: int, start: ColorRgb, end: ColorRgb, n: int) -> Seq<ColorRgb> {
    Seq::new(n as nat, |i: int| spec_lerp_color(gradient_factor(t, n, i), start, end))
}

/// `n` identical copies of the color interpolated at load `t`: every LED
/// of the block shows the same load-proportional color.
pub fn block_colors(t: Load, start: &ColorRgb, end: &ColorRgb, n: usize) -> (r: Vec<ColorRgb>)
    requires
        t.is_valid(),
    ensures
        r@ == block_seq(t.units as int, *start, *end, n as int),
        r@.len() == n,
{
    let color = lerp_color(t, start, end);
    let mut out: Vec<ColorRgb> = Vec::new();
    let mut k: usize = 0;
    while k < n
        invariant
            k <= n,
            out@.len() == k,
            color == spec_lerp_color(t.units as int, *start, *end),
            t.is_valid(),
            forall|i: int| 0 <= i < k ==> out@[i] == color,
        decreases n - k,
    {
        out.push(color);
        k = k + 1;
    }
    proof {
        assert(out@ =~= block_seq(t.units as int, *start, *end, n as int));
    }
    out
}

/// The gradient assignment over `n` LEDs at load `t`: a load fraction `t`
/// of the strip is end-colored, the rest start-colored, with a one-LED
/// linear transition band at the boundary.
pub fn gradient_colors(t: Load, start: &ColorRgb, end: &ColorRgb, n: usize) -> (r: Vec<ColorRgb>)
    requires
        t.is_valid(),
    ensures
        r@ == gradient_seq(t.units as int, *start, *end, n as int),
        r@.len() == n,
{
    proof {
        vstd::arithmetic::mul::lemma_mul_upper_bound(
            t.units as int, LOAD_SCALE as int, n as int, usize::MAX as int);
    }
    let scaled: u128 = t.units as u128 * n as u128;
    let mut out: Vec<ColorRgb> = Vec::new();
    let mut k: usize = 0;
    while k < n
        invariant
            k <= n,
            out@.len() == k,
            t.is_valid(),
            scaled == t.units as int * n as int,
            forall|i: int| 0 <= i < k ==> out@[i]
                == spec_lerp_color(gradient_factor(t.units as int, n as int, i), *start, *end),
        decreases n - k,
    {
        proof {
            vstd::arithmetic::mul::lemma_mul_upper_bound(
                k as int, usize::MAX as int, LOAD_SCALE as int, LOAD_SCALE as int);
        }
        let shift: u128 = k as u128 * LOAD_SCALE as u128;
        let factor: u32 = if scaled >= shift + LOAD_SCALE as u128 {
            LOAD_SCALE
        } else if scaled <= shift {
            0
        } else {
            (scaled - shift) as u32
        };
        proof {
            assert(shift == k as int * (LOAD_SCALE as int));
            assert(factor as int
                == gradient_factor(t.units as int, n as int, k as int));
        }
        let color = lerp_color(Load { units: factor }, start, end);
        out.push(color);
        k = k + 1;
    }
    proof {
        assert(out@ =~= gradient_seq(t.units as int, *start, *end, n as int));
    }
    out
}

/// Law: at zero load every LED of a gradient shows the start color.
pub proof fn lemma_gradient_at_zero(start: ColorRgb, end: ColorRgb, n: int)
    ensures
        forall|i: int| 0 <= i < n
            ==> gradient_seq(0, start, end, n)[i] == start,
{
    assert forall|i: int| 0 <= i < n
        implies gradient_seq(0, start, end, n)[i] == start by {
        assert(i * (LOAD_SCALE as int) >= 0) by (nonlinear_arith)
            requires i >= 0;
        assert(gradient_factor(0, n, i) == 0);
        lemma_lerp_color_endpoints(start, end);
    }
}

/// Law: at full load every LED of a gradient shows the end color.
pub proof fn lemma_gradient_at_full(start: ColorRgb, end: ColorRgb, n: int)
    ensures
        forall|i: int| 0 <= i < n
            ==> gradient_seq(LOAD_SCALE as int, start, end, n)[i] == end,
{
    let s = LOAD_SCALE as int;
    assert forall|i: int| 0 <= i < n
        implies gradient_seq(s, start, end, n)[i] == end by {
        assert(s * n - i * s >= s) by (nonlinear_arith)
            requires 0 <= i < n, s > 0;
        assert(gradient_factor(s, n, i) == s);
        lemma_lerp_color_endpoints(start, end);
    }
}

/// Law: along a gradient strip the local factor never grows with the LED
/// index, so closeness to the end color never increases from one LED to
/// the next.
pub proof fn lemma_gradient_monotone(t: int, n: int, i: int, j: int)
    requires
        0 <= i <= j < n,
    ensures
        gradient_factor(t, n, j) <= gradient_factor(t, n, i),
{
    let s = LOAD_SCALE as int;
    assert(i * s <= j * s) by (nonlinear_arith)
        requires i <= j, s > 0;
}

/// Law: an interpolated channel moves monotonically from its start value
/// toward its end value as the factor grows; with
/// [`lemma_gradient_monotone`], every channel of a gradient strip is
/// monotone in the LED index.
pub proof fn lemma_lerp_channel_monotone(t1: int, t2: int, a: int, b: int)
    requires
        0 <= t1 <= t2 <= LOAD_SCALE,
        0 <= a <= 255,
        0 <= b <= 255,
    ensures
        a <= b ==> lerp_channel(t1, a, b) <= lerp_channel(t2, a, b),
        b <= a ==> lerp_channel(t2, a, b) <= lerp_channel(t1, a, b),
{
    let s = LOAD_SCALE as int;
    let num1 = (s - t1) * a + t1 * b;
    let num2 = (s - t2) * a + t2 * b;
    assert(num2 - num1 == (t2 - t1) * (b - a)) by (nonlinear_arith)
        requires
            num1 == (s - t1) * a + t1 * b,
            num2 == (s - t2) * a + t2 * b,
    ;
    if a <= b {
        assert((t2 - t1) * (b - a) >= 0) by (nonlinear_arith)
            requires t1 <= t2, a <= b;
        vstd::arithmetic::div_mod::lemma_div_is_ordered(num1, num2, s);
    }
    if b <= a {
        assert((t2 - t1) * (b - a) <= 0) by (nonlinear_arith)
            requires t1 <= t2, b <= a;
        vstd::arithmetic::div_mod::lemma_div_is_ordered(num2, num1, s);
    }
}

} // verus!
