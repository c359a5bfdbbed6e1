use vstd::prelude::*;
use crate::error::ConfigError;

verus! {

/// Full intensity of a colour channel, the top of a blade, and the whole of a
/// blend factor: all are counted in thousandths.
pub const FULL: u16 = 1000;

/// The height at which a ramp reaches its middle colour.
pub const MIDDLE: u16 = 500;

/// An RGB colour whose channels are thousandths of full intensity.
#[derive(Clone, Copy, Debug, PartialEq, Eq, Structural)]
pub struct Color {
    pub r: u16,
    pub g: u16,
    pub b: u16,
}

/// Three colours along a blade: at its base, half-way up, and at its tip.
#[derive(Clone, Copy, Debug, PartialEq, Eq, Structural)]
pub struct ColorRamp {
    pub tip: Color,
    pub middle: Color,
    pub base: Color,
}

/// Linear interpolation from `a` at `t == 0` to `b` at `t == span`, rounded down.
pub open spec fn lerp(a: int, b: int, t: int, span: int) -> int {
    (a * (span - t) + b * t) / span
}

/// One channel of a ramp at height `h`: from the base colour at `0` through
/// the middle colour at `MIDDLE` to the tip colour at `FULL`.
pub open spec fn ramp_channel(base: int, middle: int, tip: int, h: int) -> int {
    if h <= MIDDLE {
        lerp(base, middle, h, MIDDLE as int)
    } else {
        lerp(middle, tip, h - MIDDLE, MIDDLE as int)
    }
}

/// Heights and blend factors above the full value count as the full value.
pub open spec fn clamp_full(v: int) -> int {
    if v > FULL {
        FULL as int
    } else {
        v
    }
}

/// Distance between two channel values.
pub open spec fn gap(a: int, b: int) -> int {
    if a >= b {
        a - b
    } else {
        b - a
    }
}

impl Color {
    /// Whether no channel exceeds full intensity.
    pub open spec fn is_valid(&self) -> bool {
        self.r <= FULL && self.g <= FULL && self.b <= FULL
    }

    /// The largest difference between corresponding channels.
    pub open spec fn distance(&self, other: Color) -> int {
        let dr = gap(self.r as int, other.r as int);
        let dg = gap(self.g as int, other.g as int);
        let db = gap(self.b as int, other.b as int);
        if dr >= dg && dr >= db {
            dr
        } else if dg >= db {
            dg
        } else {
            db
        }
    }

    /// The colour a fraction `f / FULL` of the way from `from` to `to`.
    pub open spec fn mix(from: Color, to: Color, f: int) -> Color {
        Color {
            r: lerp(from.r as int, to.r as int, f, FULL as int) as u16,
            g: lerp(from.g as int, to.g as int, f, FULL as int) as u16,
            b: lerp(from.b as int, to.b as int, f, FULL as int) as u16,
        }
    }

    pub fn rgb(r: u16, g: u16, b: u16) -> (c: Color)
        ensures
            c == (Color { r, g, b }),
    {
        Color { r, g, b }
    }

    pub fn check(&self) -> (ok: bool)
        ensures
            ok == self.is_valid(),
    {
        self.r <= FULL && self.g <= FULL && self.b <= FULL
    }
}

impl ColorRamp {
    pub open spec fn is_valid(&self) -> bool {
        self.tip.is_valid() && self.middle.is_valid() && self.base.is_valid()
    }

    /// The ramp's colour at height `h`, for `0 <= h <= FULL`.
    pub open spec fn at(&self, h: int) -> Color {
        Color {
            r: ramp_channel(self.base.r as int, self.middle.r as int, self.tip.r as int, h) as u16,
            g: ramp_channel(self.base.g as int, self.middle.g as int, self.tip.g as int, h) as u16,
            b: ramp_channel(self.base.b as int, self.middle.b as int, self.tip.b as int, h) as u16,
        }
    }

    /// Builds a ramp, rejecting one with a channel above full intensity.
    pub fn new(tip: Color, middle: Color, base: Color) -> (ramp: Result<ColorRamp, ConfigError>)
        ensures
            ramp is Ok <==> tip.is_valid() && middle.is_valid() && base.is_valid(),
            ramp matches Ok(r) ==> r == (ColorRamp { tip, middle, base }),
            ramp matches Err(e) ==> e == ConfigError::MalformedColorRamp,
    {
        if tip.check() && middle.check() && base.check() {
            Ok(ColorRamp { tip, middle, base })
        } else {
            Err(ConfigError::MalformedColorRamp)
        }
    }

    pub fn check(&self) -> (ok: bool)
        ensures
            ok == self.is_valid(),
    {
        self.tip.check() && self.middle.check() && self.base.check()
    }

    /// The ramp's colour at `height`; heights above `FULL` give the tip colour.
    pub fn color_at(&self, height: u16) -> (c: Color)
        ensures
            c == self.at(clamp_full(height as int)),
            height == 0 ==> c == self.base,
            height == MIDDLE ==> c == self.middle,
            height >= FULL ==> c == self.tip,
            self.is_valid() ==> c.is_valid(),
    {
        let h: u16 = if height > FULL { FULL } else { height };
        Color {
            r: ramp_value(self.base.r, self.middle.r, self.tip.r, h),
            g: ramp_value(self.base.g, self.middle.g, self.tip.g, h),
            b: ramp_value(self.base.b, self.middle.b, self.tip.b, h),
        }
    }
}

/// The colour of a blade at height `h` where the ground's favourability is
/// `f`: the healthy ramp at `f == FULL`, the unhealthy one at `f == 0`, and a
/// proportional mixture between.
pub open spec fn blade_color(healthy: ColorRamp, unhealthy: ColorRamp, h: int, f: int) -> Color {
    Color::mix(unhealthy.at(h), healthy.at(h), f)
}

/// An interpolated value lies between the two ends.
pub proof fn lemma_lerp_between(a: int, b: int, t: int, span: int)
    requires
        0 <= a,
        0 <= b,
        0 <= t <= span,
        0 < span,
    ensures
        a <= b ==> a <= lerp(a, b, t, span) <= b,
        b <= a ==> b <= lerp(a, b, t, span) <= a,
        t == 0 ==> lerp(a, b, t, span) == a,
        t == span ==> lerp(a, b, t, span) == b,
{
    let n = a * (span - t) + b * t;
    assert(a <= b ==> a * span <= n <= b * span) by (nonlinear_arith)
        requires
            n == a * (span - t) + b * t,
            0 <= t <= span,
    ;
    assert(b <= a ==> b * span <= n <= a * span) by (nonlinear_arith)
        requires
            n == a * (span - t) + b * t,
            0 <= t <= span,
    ;
    lemma_floor_between(n, a, b, span);
    lemma_floor_between(n, b, a, span);
    assert(t == 0 ==> n == a * span) by (nonlinear_arith)
        requires
            n == a * (span - t) + b * t,
    ;
    assert(t == span ==> n == b * span) by (nonlinear_arith)
        requires
            n == a * (span - t) + b * t,
    ;
    lemma_floor_between(n, a, a, span);
    lemma_floor_between(n, b, b, span);
}

proof fn lemma_floor_between(n: int, lo: int, hi: int, span: int)
    requires
        0 < span,
    ensures
        lo * span <= n <= hi * span ==> lo <= n / span <= hi,
{
    assert(lo * span <= n <= hi * span ==> lo <= n / span <= hi) by (nonlinear_arith)
        requires
            0 < span,
    ;
}

/// Quotients of numerators that differ by at most `k * span` differ by at most `k`.
proof fn lemma_floor_lipschitz(n1: int, n2: int, k: int, span: int)
    requires
        0 < span,
        0 <= k,
        n1 - k * span <= n2 <= n1 + k * span,
    ensures
        gap(n1 / span, n2 / span) <= k,
{
    assert(n1 / span - k <= n2 / span <= n1 / span + k) by (nonlinear_arith)
        requires
            0 < span,
            0 <= k,
            n1 - k * span <= n2 <= n1 + k * span,
    ;
}

fn lerp_value(a: u16, b: u16, t: u16, span: u16) -> (c: u16)
    requires
        0 < span,
        t <= span,
    ensures
        c == lerp(a as int, b as int, t as int, span as int),
{
    proof {
        lemma_lerp_between(a as int, b as int, t as int, span as int);
        assert(a * (span - t) <= 0xffff * 0xffff && b * t <= 0xffff * 0xffff) by (nonlinear_arith)
            requires
                0 <= a <= 0xffff,
                0 <= b <= 0xffff,
                0 <= t <= span <= 0xffff,
        ;
    }
    let n: u64 = (a as u64) * ((span - t) as u64) + (b as u64) * (t as u64);
    (n / (span as u64)) as u16
}

fn ramp_value(base: u16, middle: u16, tip: u16, h: u16) -> (c: u16)
    requires
        h <= FULL,
    ensures
        c == ramp_channel(base as int, middle as int, tip as int, h as int),
        h == 0 ==> c == base,
        h == MIDDLE ==> c == middle,
        h == FULL ==> c == tip,
        base <= FULL && middle <= FULL && tip <= FULL ==> c <= FULL,
{
    proof {
        if h <= MIDDLE {
            lemma_lerp_between(base as int, middle as int, h as int, MIDDLE as int);
        } else {
            lemma_lerp_between(middle as int, tip as int, h - MIDDLE, MIDDLE as int);
        }
    }
    if h <= MIDDLE {
        lerp_value(base, middle, h, MIDDLE)
    } else {
        lerp_value(middle, tip, h - MIDDLE, MIDDLE)
    }
}

/// Mixes two colours channel by channel; factors above `FULL` give `to`.
pub fn mix_colors(from: &Color, to: &Color, factor: u16) -> (c: Color)
    ensures
        c == Color::mix(*from, *to, clamp_full(factor as int)),
        factor == 0 ==> c == *from,
        factor >= FULL ==> c == *to,
        from.is_valid() && to.is_valid() ==> c.is_valid(),
{
    let f: u16 = if factor > FULL { FULL } else { factor };
    proof {
        lemma_lerp_between(from.r as int, to.r as int, f as int, FULL as int);
        lemma_lerp_between(from.g as int, to.g as int, f as int, FULL as int);
        lemma_lerp_between(from.b as int, to.b as int, f as int, FULL as int);
    }
    Color {
        r: lerp_value(from.r, to.r, f, FULL),
        g: lerp_value(from.g, to.g, f, FULL),
        b: lerp_value(from.b, to.b, f, FULL),
    }
}

/// Computes the colour of a blade at `height` for ground of the given
/// `favorability`.
pub fn shade_blade(healthy: &ColorRamp, unhealthy: &ColorRamp, height: u16, favorability: u16) -> (c: Color)
    ensures
        c == blade_color(*healthy, *unhealthy, clamp_full(height as int), clamp_full(favorability as int)),
        favorability == 0 ==> c == unhealthy.at(clamp_full(height as int)),
        favorability >= FULL ==> c == healthy.at(clamp_full(height as int)),
        healthy.is_valid() && unhealthy.is_valid() ==> c.is_valid(),
{
    let low = unhealthy.color_at(height);
    let high = healthy.color_at(height);
    mix_colors(&low, &high, favorability)
}

/// Moving the parameter of an interpolation by `t2 - t1` moves the value by
/// at most `c * (t2 - t1)`, where the two ends differ by at most `c * span`.
proof fn lemma_lerp_steps(a: int, b: int, t1: int, t2: int, span: int, c: int)
    requires
        0 < span,
        0 <= c,
        t1 <= t2,
        gap(a, b) <= c * span,
    ensures
        gap(lerp(a, b, t1, span), lerp(a, b, t2, span)) <= c * (t2 - t1),
{
    let n1 = a * (span - t1) + b * t1;
    let n2 = a * (span - t2) + b * t2;
    let k = c * (t2 - t1);
    assert(n2 - n1 == (b - a) * (t2 - t1)) by (nonlinear_arith)
        requires
            n1 == a * (span - t1) + b * t1,
            n2 == a * (span - t2) + b * t2,
    ;
    assert(-(k * span) <= (b - a) * (t2 - t1) <= k * span && 0 <= k) by (nonlinear_arith)
        requires
            k == c * (t2 - t1),
            0 <= t2 - t1,
            0 <= c,
            -(c * span) <= b - a <= c * span,
    ;
    lemma_floor_lipschitz(n1, n2, k, span);
}

/// Mixing two pairs of values that are each within `k` of one another, with
/// the same factor, gives values within `k` of one another.
proof fn lemma_mix_steps(u1: int, u2: int, h1: int, h2: int, f: int, k: int)
    requires
        0 <= f <= FULL,
        0 <= k,
        gap(u1, u2) <= k,
        gap(h1, h2) <= k,
    ensures
        gap(lerp(u1, h1, f, FULL as int), lerp(u2, h2, f, FULL as int)) <= k,
{
    let n1 = u1 * (FULL - f) + h1 * f;
    let n2 = u2 * (FULL - f) + h2 * f;
    assert(n1 - k * 1000 <= n2 <= n1 + k * 1000) by (nonlinear_arith)
        requires
            n1 == u1 * (1000 - f) + h1 * f,
            n2 == u2 * (1000 - f) + h2 * f,
            0 <= f <= 1000,
            -k <= u1 - u2 <= k,
            -k <= h1 - h2 <= k,
    ;
    lemma_floor_lipschitz(n1, n2, k, FULL as int);
}

/// One channel of a ramp changes by at most two thousandths for each
/// thousandth of height, across the middle stop as well as within a segment.
pub proof fn lemma_ramp_channel_continuous(base: int, middle: int, tip: int, h1: int, h2: int)
    requires
        0 <= base <= FULL,
        0 <= middle <= FULL,
        0 <= tip <= FULL,
        0 <= h1 <= h2 <= FULL,
    ensures
        gap(ramp_channel(base, middle, tip, h1), ramp_channel(base, middle, tip, h2)) <= 2 * (h2 - h1),
        0 <= ramp_channel(base, middle, tip, h1) <= FULL,
        0 <= ramp_channel(base, middle, tip, h2) <= FULL,
        ramp_channel(base, middle, tip, 0) == base,
        ramp_channel(base, middle, tip, MIDDLE as int) == middle,
        ramp_channel(base, middle, tip, FULL as int) == tip,
{
    let m = MIDDLE as int;
    lemma_lerp_between(base, middle, 0, m);
    lemma_lerp_between(base, middle, m, m);
    lemma_lerp_between(middle, tip, m, m);
    if h1 <= m {
        lemma_lerp_between(base, middle, h1, m);
    } else {
        lemma_lerp_between(middle, tip, h1 - m, m);
    }
    if h2 <= m {
        lemma_lerp_between(base, middle, h2, m);
    } else {
        lemma_lerp_between(middle, tip, h2 - m, m);
    }
    if h2 <= m {
        lemma_lerp_steps(base, middle, h1, h2, m, 2);
    } else if h1 > m {
        lemma_lerp_steps(middle, tip, h1 - m, h2 - m, m, 2);
    } else {
        lemma_lerp_steps(base, middle, h1, m, m, 2);
        lemma_lerp_between(middle, tip, 0, m);
        lemma_lerp_steps(middle, tip, 0, h2 - m, m, 2);
    }
}

/// The colour of a blade is continuous in height: raising the sampled height
/// by some amount changes each channel by at most twice that amount, with no
/// jump where the two segments of a ramp meet.
pub proof fn lemma_blade_color_continuous(healthy: ColorRamp, unhealthy: ColorRamp, h1: int, h2: int, f: int)
    requires
        healthy.is_valid(),
        unhealthy.is_valid(),
        0 <= h1 <= FULL,
        0 <= h2 <= FULL,
        0 <= f <= FULL,
    ensures
        blade_color(healthy, unhealthy, h1, f).distance(blade_color(healthy, unhealthy, h2, f)) <= 2 * gap(h1, h2),
        blade_color(healthy, unhealthy, h1, f).is_valid(),
{
    let lo = if h1 <= h2 { h1 } else { h2 };
    let hi = if h1 <= h2 { h2 } else { h1 };
    let k = 2 * (hi - lo);
    lemma_ramp_channel_continuous(healthy.base.r as int, healthy.middle.r as int, healthy.tip.r as int, lo, hi);
    lemma_ramp_channel_continuous(healthy.base.g as int, healthy.middle.g as int, healthy.tip.g as int, lo, hi);
    lemma_ramp_channel_continuous(healthy.base.b as int, healthy.middle.b as int, healthy.tip.b as int, lo, hi);
    lemma_ramp_channel_continuous(unhealthy.base.r as int, unhealthy.middle.r as int, unhealthy.tip.r as int, lo, hi);
    lemma_ramp_channel_continuous(unhealthy.base.g as int, unhealthy.middle.g as int, unhealthy.tip.g as int, lo, hi);
    lemma_ramp_channel_continuous(unhealthy.base.b as int, unhealthy.middle.b as int, unhealthy.tip.b as int, lo, hi);
    let ua = unhealthy.at(h1);
    let ub = unhealthy.at(h2);
    let ha = healthy.at(h1);
    let hb = healthy.at(h2);
    lemma_mix_steps(ua.r as int, ub.r as int, ha.r as int, hb.r as int, f, k);
    lemma_mix_steps(ua.g as int, ub.g as int, ha.g as int, hb.g as int, f, k);
    lemma_mix_steps(ua.b as int, ub.b as int, ha.b as int, hb.b as int, f, k);
    lemma_lerp_between(ua.r as int, ha.r as int, f, FULL as int);
    lemma_lerp_between(ua.g as int, ha.g as int, f, FULL as int);
    lemma_lerp_between(ua.b as int, ha.b as int, f, FULL as int);
    lemma_lerp_between(ub.r as int, hb.r as int, f, FULL as int);
    lemma_lerp_between(ub.g as int, hb.g as int, f, FULL as int);
    lemma_lerp_between(ub.b as int, hb.b as int, f, FULL as int);
}

/// The colour of a blade is continuous in the favourability too: each channel
/// changes by at most the change of the factor.
pub proof fn lemma_blade_color_continuous_in_favorability(healthy: ColorRamp, unhealthy: ColorRamp, h: int, f1: int, f2: int)
    requires
        healthy.is_valid(),
        unhealthy.is_valid(),
        0 <= h <= FULL,
        0 <= f1 <= FULL,
        0 <= f2 <= FULL,
    ensures
        blade_color(healthy, unhealthy, h, f1).distance(blade_color(healthy, unhealthy, h, f2)) <= gap(f1, f2),
{
    let lo = if f1 <= f2 { f1 } else { f2 };
    let hi = if f1 <= f2 { f2 } else { f1 };
    lemma_ramp_channel_continuous(healthy.base.r as int, healthy.middle.r as int, healthy.tip.r as int, h, h);
    lemma_ramp_channel_continuous(healthy.base.g as int, healthy.middle.g as int, healthy.tip.g as int, h, h);
    lemma_ramp_channel_continuous(healthy.base.b as int, healthy.middle.b as int, healthy.tip.b as int, h, h);
    lemma_ramp_channel_continuous(unhealthy.base.r as int, unhealthy.middle.r as int, unhealthy.tip.r as int, h, h);
    lemma_ramp_channel_continuous(unhealthy.base.g as int, unhealthy.middle.g as int, unhealthy.tip.g as int, h, h);
    lemma_ramp_channel_continuous(unhealthy.base.b as int, unhealthy.middle.b as int, unhealthy.tip.b as int, h, h);
    let u = unhealthy.at(h);
    let g = healthy.at(h);
    lemma_lerp_steps(u.r as int, g.r as int, lo, hi, FULL as int, 1);
    lemma_lerp_steps(u.g as int, g.g as int, lo, hi, FULL as int, 1);
    lemma_lerp_steps(u.b as int, g.b as int, lo, hi, FULL as int, 1);
    lemma_lerp_between(u.r as int, g.r as int, lo, FULL as int);
    lemma_lerp_between(u.g as int, g.g as int, lo, FULL as int);
    lemma_lerp_between(u.b as int, g.b as int, lo, FULL as int);
    lemma_lerp_between(u.r as int, g.r as int, hi, FULL as int);
    lemma_lerp_between(u.g as int, g.g as int, hi, FULL as int);
    lemma_lerp_between(u.b as int, g.b as int, hi, FULL as int);
}

} // verus!
