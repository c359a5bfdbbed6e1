use vstd::prelude::*;
use crate::color::{blade_color, clamp_full, gap, shade_blade, Color, ColorRamp};
use crate::error::ConfigError;
use crate::geometry::{Uv, Vec2, Vec3};
use crate::scatter::{draw, draw_value, lemma_offset_within_bounds, mix, mix_bits, offset_within, place_within};

verus! {

/// Whether a span of half-width `half` has any extent.
pub open spec fn span_has_extent(half: i64) -> bool {
    half > 0
}

/// Whether both ends of the span of half-width `half` around `center` are
/// representable coordinates.
pub open spec fn span_fits(center: i64, half: i64) -> bool {
    i64::MIN <= center - half && center + half <= i64::MAX
}

fn check_span_fits(center: i64, half: i64) -> (ok: bool)
    requires
        half > 0,
    ensures
        ok == span_fits(center, half),
{
    center >= i64::MIN + half && center <= i64::MAX - half
}

/// The square of world over which the growth map is laid.
pub struct GridModel {
    pub center: Vec2,
    pub half_extents: Vec2,
}

impl GridModel {
    /// A grid has extent along both axes and lies within the coordinate range.
    pub open spec fn is_valid(&self) -> bool {
        &&& span_has_extent(self.half_extents.x)
        &&& span_has_extent(self.half_extents.y)
        &&& span_fits(self.center.x, self.half_extents.x)
        &&& span_fits(self.center.y, self.half_extents.y)
    }

    /// Whether the world position `(x, y)` lies on the grid, edges included.
    pub open spec fn contains(&self, x: int, y: int) -> bool {
        &&& self.center.x - self.half_extents.x <= x <= self.center.x + self.half_extents.x
        &&& self.center.y - self.half_extents.y <= y <= self.center.y + self.half_extents.y
    }

    /// Where the chunk at grid position `(x, y)` stands, for chunks of side
    /// `chunk_size`: the grid position times the chunk size, less the grid's
    /// half-extent.
    pub open spec fn origin_of(&self, x: u32, y: u32, chunk_size: u64) -> (int, int) {
        (x * chunk_size - self.half_extents.x, y * chunk_size - self.half_extents.y)
    }

    /// Where in the growth map the world position `(x, y)` falls: from 0 at
    /// the low edge of the grid to 1000 at its high edge, rounded down.
    pub open spec fn uv_of(&self, x: int, y: int) -> Uv {
        Uv {
            u: ((x - (self.center.x - self.half_extents.x)) * 1000 / (2 * self.half_extents.x)) as i64,
            v: ((y - (self.center.y - self.half_extents.y)) * 1000 / (2 * self.half_extents.y)) as i64,
        }
    }
}

/// The extent of the whole grid of chunks, validated on construction.
#[derive(Debug)]
pub struct GridConfig {
    grid_center_xy: Vec2,
    grid_half_extents: Vec2,
}

impl View for GridConfig {
    type V = GridModel;

    closed spec fn view(&self) -> GridModel {
        GridModel { center: self.grid_center_xy, half_extents: self.grid_half_extents }
    }
}

fn axis_fraction(p: i64, center: i64, half: i64) -> (t: i64)
    requires
        half > 0,
        span_fits(center, half),
        center - half <= p <= center + half,
    ensures
        t == (p - (center - half)) * 1000 / (2 * half),
        0 <= t <= 1000,
{
    let d: u128 = (p as i128 - (center as i128 - half as i128)) as u128;
    let size: u128 = 2 * (half as u128);
    proof {
        assert(0 <= (d * 1000) / (size as int) <= 1000) by (nonlinear_arith)
            requires
                0 <= d <= size,
                0 < size,
        ;
    }
    (d * 1000 / size) as i64
}

impl GridConfig {
    #[verifier::type_invariant]
    closed spec fn inv(&self) -> bool {
        self@.is_valid()
    }

    /// Describes a grid. A grid without extent along either axis, or one that
    /// reaches beyond the coordinate range, is rejected.
    pub fn new(grid_center_xy: Vec2, grid_half_extents: Vec2) -> (grid: Result<GridConfig, ConfigError>)
        ensures
            grid is Ok <==> (GridModel { center: grid_center_xy, half_extents: grid_half_extents }).is_valid(),
            grid matches Ok(g) ==> g@ == (GridModel { center: grid_center_xy, half_extents: grid_half_extents }),
            grid matches Err(e) ==> e == (if grid_half_extents.x <= 0 || grid_half_extents.y <= 0 {
                ConfigError::NonPositiveExtent
            } else {
                ConfigError::OutOfRange
            }),
    {
        if grid_half_extents.x <= 0 || grid_half_extents.y <= 0 {
            return Err(ConfigError::NonPositiveExtent);
        }
        if !check_span_fits(grid_center_xy.x, grid_half_extents.x) || !check_span_fits(
            grid_center_xy.y,
            grid_half_extents.y,
        ) {
            return Err(ConfigError::OutOfRange);
        }
        Ok(GridConfig { grid_center_xy, grid_half_extents })
    }

    pub fn grid_center_xy(&self) -> (c: Vec2)
        ensures
            c == self@.center,
    {
        self.grid_center_xy
    }

    pub fn grid_half_extents(&self) -> (h: Vec2)
        ensures
            h == self@.half_extents,
            h.x > 0,
            h.y > 0,
    {
        proof {
            use_type_invariant(self);
        }
        self.grid_half_extents
    }

    /// The full width and depth of the grid: twice the half-extents.
    pub fn get_size(&self) -> (size: (u64, u64))
        ensures
            size.0 == 2 * self@.half_extents.x,
            size.1 == 2 * self@.half_extents.y,
            self@.is_valid(),
    {
        proof {
            use_type_invariant(self);
        }
        (2 * (self.grid_half_extents.x as u64), 2 * (self.grid_half_extents.y as u64))
    }

    /// The place in the world of the chunk at grid position `(x, y)`, on the
    /// ground; `None` where it lies beyond the coordinate range.
    pub fn chunk_origin(&self, x: u32, y: u32, chunk_size: u64) -> (origin: Option<Vec3>)
        ensures
            origin is Some <==> self@.origin_of(x, y, chunk_size).0 <= i64::MAX && self@.origin_of(
                x,
                y,
                chunk_size,
            ).1 <= i64::MAX,
            origin matches Some(o) ==> o.x == self@.origin_of(x, y, chunk_size).0 && o.y == 0 && o.z
                == self@.origin_of(x, y, chunk_size).1,
    {
        proof {
            use_type_invariant(self);
            assert(x * chunk_size <= 0xffff_ffff * 0xffff_ffff_ffff_ffff && 0 <= x * chunk_size) by (nonlinear_arith)
                requires
                    0 <= x <= 0xffff_ffff,
                    0 <= chunk_size <= 0xffff_ffff_ffff_ffff,
            ;
            assert(y * chunk_size <= 0xffff_ffff * 0xffff_ffff_ffff_ffff && 0 <= y * chunk_size) by (nonlinear_arith)
                requires
                    0 <= y <= 0xffff_ffff,
                    0 <= chunk_size <= 0xffff_ffff_ffff_ffff,
            ;
        }
        let px: i128 = ((x as u128) * (chunk_size as u128)) as i128 - self.grid_half_extents.x as i128;
        let pz: i128 = ((y as u128) * (chunk_size as u128)) as i128 - self.grid_half_extents.y as i128;
        if px > i64::MAX as i128 || pz > i64::MAX as i128 {
            return None;
        }
        Some(Vec3 { x: px as i64, y: 0, z: pz as i64 })
    }

    /// The growth-map coordinate of a world position, or `None` for a
    /// position outside the grid.
    pub fn growth_uv(&self, x: i64, y: i64) -> (uv: Option<Uv>)
        ensures
            uv is Some <==> self@.contains(x as int, y as int),
            uv matches Some(c) ==> c == self@.uv_of(x as int, y as int) && 0 <= c.u <= 1000 && 0 <= c.v <= 1000,
    {
        proof {
            use_type_invariant(self);
        }
        let cx = self.grid_center_xy.x;
        let cy = self.grid_center_xy.y;
        let hx = self.grid_half_extents.x;
        let hy = self.grid_half_extents.y;
        if x < cx - hx || x > cx + hx || y < cy - hy || y > cy + hy {
            return None;
        }
        Some(Uv { u: axis_fraction(x, cx, hx), v: axis_fraction(y, cy, hy) })
    }
}

/// The texel, among `size` of them in a row, on which the coordinate `t`
/// falls; the far edge belongs to the last texel.
pub open spec fn texel_along(t: int, size: int) -> int {
    if t * size / 1000 >= size {
        size - 1
    } else {
        t * size / 1000
    }
}

fn texel_index(t: i64, size: u32) -> (index: u32)
    requires
        0 <= t <= 1000,
        size > 0,
    ensures
        index == texel_along(t as int, size as int),
        index < size,
{
    proof {
        assert(0 <= t * size <= 1000 * 0xffff_ffff) by (nonlinear_arith)
            requires
                0 <= t <= 1000,
                0 <= size <= 0xffff_ffff,
        ;
    }
    let scaled: u64 = (t as u64) * (size as u64) / 1000;
    if scaled >= size as u64 {
        size - 1
    } else {
        scaled as u32
    }
}

/// The texel of a growth map of `width` by `height` texels that a map
/// coordinate falls on; `None` for an empty map and for a coordinate outside
/// the map.
pub fn growth_texel(uv: Uv, width: u32, height: u32) -> (texel: Option<(u32, u32)>)
    ensures
        texel is Some <==> width > 0 && height > 0 && 0 <= uv.u <= 1000 && 0 <= uv.v <= 1000,
        texel matches Some(t) ==> t.0 == texel_along(uv.u as int, width as int) && t.1 == texel_along(
            uv.v as int,
            height as int,
        ) && t.0 < width && t.1 < height,
{
    if width == 0 || height == 0 || uv.u < 0 || uv.u > 1000 || uv.v < 0 || uv.v > 1000 {
        return None;
    }
    Some((texel_index(uv.u, width), texel_index(uv.v, height)))
}

/// The favourability that an 8-bit sample of the growth map stands for: none
/// at 0, full at 255.
pub fn favorability_of(sample: u8) -> (favorability: u16)
    ensures
        favorability == sample * 1000 / 255,
        favorability <= 1000,
        sample == 255 ==> favorability == 1000,
{
    ((sample as u32) * 1000 / 255) as u16
}

/// Everything that determines the grass of one chunk. No blade is stored:
/// where a blade stands and how it is coloured follow from its index and
/// from these fields.
#[derive(Clone, Copy, Debug, PartialEq, Eq, Structural)]
pub struct GrassDescriptor {
    /// Elapsed time in thousandths of a second.
    pub time: u64,
    pub healthy: ColorRamp,
    pub unhealthy: ColorRamp,
    /// The chunk's centre in the world.
    pub chunk_xy: Vec2,
    pub chunk_half_extents: Vec2,
    pub nr_instances: u32,
    pub growth_texture_id: u32,
    /// Size of every blade of the chunk, in thousandths.
    pub scale: u32,
    /// Additional factor on the height of every blade, in thousandths.
    pub height_modifier: u32,
}

/// Shifts the signed range onto the unsigned one, keeping the order.
pub open spec fn bias(v: i64) -> u64 {
    (v + 0x8000_0000_0000_0000) as u64
}

/// The seed of a chunk's blades: a hash of the chunk's position.
pub open spec fn chunk_seed(chunk_xy: Vec2) -> u64 {
    mix(mix(bias(chunk_xy.x)) ^ bias(chunk_xy.y))
}

/// Duration of one full sway, in thousandths of a second; the wave repeats
/// over the same number of thousandths of a world unit along each axis.
pub const SWAY_PERIOD: u64 = 4000;

/// Largest lean to either side, in thousandths.
pub const SWAY_REACH: i64 = 1000;

/// Where in its cycle the blade at `(x, z)` is at `time`.
pub open spec fn sway_phase(time: u64, x: i64, z: i64) -> int {
    (time + bias(x) + bias(z)) % (SWAY_PERIOD as int)
}

/// A wave that rises by one per step for half the period and falls by one
/// per step for the other half.
pub open spec fn triangle_wave(phase: int) -> int {
    if phase < 2 * SWAY_REACH {
        phase - SWAY_REACH
    } else {
        3 * SWAY_REACH - phase
    }
}

/// How far the blade at `(x, z)` leans at `time`, in thousandths of the
/// largest lean: a wave that travels over the ground as time passes.
pub open spec fn sway_at(time: u64, x: i64, z: i64) -> int {
    triangle_wave(sway_phase(time, x, z))
}

/// Height of an unscaled blade and half its width at the base, in
/// thousandths of a world unit.
pub const BLADE_HEIGHT: u64 = 1000;

pub const BLADE_HALF_WIDTH: u64 = 50;

impl GrassDescriptor {
    /// The reason for which this description is rejected, if it is.
    pub open spec fn defect(&self) -> Option<ConfigError> {
        if !span_has_extent(self.chunk_half_extents.x) || !span_has_extent(self.chunk_half_extents.y) {
            Some(ConfigError::NonPositiveExtent)
        } else if !self.healthy.is_valid() || !self.unhealthy.is_valid() {
            Some(ConfigError::MalformedColorRamp)
        } else if !span_fits(self.chunk_xy.x, self.chunk_half_extents.x) || !span_fits(
            self.chunk_xy.y,
            self.chunk_half_extents.y,
        ) {
            Some(ConfigError::OutOfRange)
        } else {
            None
        }
    }

    pub open spec fn is_valid(&self) -> bool {
        self.defect() is None
    }

    /// The displacement of blade `index` from the chunk's centre.
    pub open spec fn blade_offset(&self, index: nat) -> (int, int) {
        let seed = chunk_seed(self.chunk_xy);
        (
            offset_within(draw(seed, (2 * index) as u64), (2 * self.chunk_half_extents.x) as u64),
            offset_within(draw(seed, (2 * index + 1) as u64), (2 * self.chunk_half_extents.y) as u64),
        )
    }

    /// The world position of blade `index`.
    pub open spec fn blade_at(&self, index: nat) -> Vec2 {
        Vec2 {
            x: (self.chunk_xy.x + self.blade_offset(index).0) as i64,
            y: (self.chunk_xy.y + self.blade_offset(index).1) as i64,
        }
    }

    /// Whether a world position lies within the chunk.
    pub open spec fn covers(&self, p: Vec2) -> bool {
        &&& self.chunk_xy.x - self.chunk_half_extents.x <= p.x <= self.chunk_xy.x + self.chunk_half_extents.x
        &&& self.chunk_xy.y - self.chunk_half_extents.y <= p.y <= self.chunk_xy.y + self.chunk_half_extents.y
    }

    /// The height of every blade of the chunk.
    pub open spec fn blade_height(&self) -> int {
        BLADE_HEIGHT * self.scale / 1000 * self.height_modifier / 1000
    }

    /// Half the width of every blade of the chunk at its base.
    pub open spec fn blade_half_width(&self) -> int {
        BLADE_HALF_WIDTH * self.scale / 1000
    }
}

/// The grass of one chunk: a validated description.
#[derive(Debug)]
pub struct ChunkGrass {
    descriptor: GrassDescriptor,
}

impl View for ChunkGrass {
    type V = GrassDescriptor;

    closed spec fn view(&self) -> GrassDescriptor {
        self.descriptor
    }
}

fn bias_value(v: i64) -> (r: u64)
    ensures
        r == bias(v),
{
    (v as i128 + 0x8000_0000_0000_0000i128) as u64
}

impl ChunkGrass {
    #[verifier::type_invariant]
    closed spec fn inv(&self) -> bool {
        self.descriptor.is_valid()
    }

    /// Accepts a description, or says what is wrong with it. A chunk without
    /// blades is accepted: it draws nothing.
    pub fn new(descriptor: GrassDescriptor) -> (grass: Result<ChunkGrass, ConfigError>)
        ensures
            grass is Ok <==> descriptor.is_valid(),
            grass matches Ok(g) ==> g@ == descriptor,
            grass matches Err(e) ==> descriptor.defect() == Some(e),
    {
        let half = descriptor.chunk_half_extents;
        if half.x <= 0 || half.y <= 0 {
            return Err(ConfigError::NonPositiveExtent);
        }
        if !descriptor.healthy.check() || !descriptor.unhealthy.check() {
            return Err(ConfigError::MalformedColorRamp);
        }
        if !check_span_fits(descriptor.chunk_xy.x, half.x) || !check_span_fits(descriptor.chunk_xy.y, half.y) {
            return Err(ConfigError::OutOfRange);
        }
        Ok(ChunkGrass { descriptor })
    }

    pub fn descriptor(&self) -> (d: GrassDescriptor)
        ensures
            d == self@,
            d.is_valid(),
    {
        proof {
            use_type_invariant(self);
        }
        self.descriptor
    }

    /// Moves time forward by `delta`. Time never runs backward and never
    /// wraps: at the end of its range it stands still.
    pub fn advance_time(&mut self, delta: u64)
        ensures
            final(self)@ == (GrassDescriptor {
                time: if old(self)@.time + delta <= u64::MAX {
                    (old(self)@.time + delta) as u64
                } else {
                    u64::MAX
                },
                ..old(self)@
            }),
            final(self)@.time >= old(self)@.time,
            final(self)@.is_valid(),
    {
        proof {
            use_type_invariant(&*self);
        }
        let time = self.descriptor.time.saturating_add(delta);
        self.descriptor = GrassDescriptor { time, ..self.descriptor };
    }

    /// The world position of blade `index`, or `None` where the chunk has no
    /// such blade.
    pub fn blade_position(&self, index: u32) -> (position: Option<Vec2>)
        ensures
            position is Some <==> index < self@.nr_instances,
            position matches Some(p) ==> p == self@.blade_at(index as nat) && self@.covers(p),
    {
        proof {
            use_type_invariant(self);
        }
        let d = &self.descriptor;
        if index >= d.nr_instances {
            return None;
        }
        let seed = mix_bits(mix_bits(bias_value(d.chunk_xy.x)) ^ bias_value(d.chunk_xy.y));
        let k: u64 = 2 * (index as u64);
        let wide: u64 = 2 * (d.chunk_half_extents.x as u64);
        let deep: u64 = 2 * (d.chunk_half_extents.y as u64);
        let dx = place_within(draw_value(seed, k), wide);
        let dy = place_within(draw_value(seed, k + 1), deep);
        proof {
            lemma_offset_within_bounds(draw(seed, k), wide);
            lemma_offset_within_bounds(draw(seed, (k + 1) as u64), deep);
        }
        Some(Vec2 { x: d.chunk_xy.x + dx, y: d.chunk_xy.y + dy })
    }

    /// The colour of a blade of this chunk at `height` along the blade, for
    /// ground of the given `favorability`. Values above `FULL` count as `FULL`.
    pub fn blade_color(&self, height: u16, favorability: u16) -> (c: Color)
        ensures
            c == blade_color(
                self@.healthy,
                self@.unhealthy,
                clamp_full(height as int),
                clamp_full(favorability as int),
            ),
            c.is_valid(),
    {
        proof {
            use_type_invariant(self);
        }
        shade_blade(&self.descriptor.healthy, &self.descriptor.unhealthy, height, favorability)
    }

    /// How far the blade standing at the world position `(x, z)` leans now.
    pub fn sway(&self, x: i64, z: i64) -> (lean: i64)
        ensures
            lean == sway_at(self@.time, x, z),
            -SWAY_REACH <= lean <= SWAY_REACH,
    {
        let sum: u128 = self.descriptor.time as u128 + bias_value(x) as u128 + bias_value(z) as u128;
        let phase: i64 = (sum % (SWAY_PERIOD as u128)) as i64;
        if phase < 2 * SWAY_REACH {
            phase - SWAY_REACH
        } else {
            3 * SWAY_REACH - phase
        }
    }

    /// The height of every blade of this chunk.
    pub fn blade_height(&self) -> (h: u64)
        ensures
            h == self@.blade_height(),
    {
        let scaled: u64 = BLADE_HEIGHT * (self.descriptor.scale as u64) / 1000;
        proof {
            let modifier = self.descriptor.height_modifier;
            assert(scaled * modifier <= 0xffff_ffff * 0xffff_ffff) by (nonlinear_arith)
                requires
                    0 <= scaled <= 0xffff_ffff,
                    0 <= modifier <= 0xffff_ffff,
            ;
        }
        scaled * (self.descriptor.height_modifier as u64) / 1000
    }

    /// Half the width of every blade of this chunk at its base.
    pub fn blade_half_width(&self) -> (w: u64)
        ensures
            w == self@.blade_half_width(),
    {
        BLADE_HALF_WIDTH * (self.descriptor.scale as u64) / 1000
    }
}

/// Every blade of a valid chunk stands within the chunk: its displacement
/// from the centre is at most the half-extent along each axis.
pub proof fn lemma_blades_within_chunk(descriptor: GrassDescriptor, index: nat)
    requires
        descriptor.is_valid(),
        index <= u32::MAX,
    ensures
        -descriptor.chunk_half_extents.x <= descriptor.blade_offset(index).0 <= descriptor.chunk_half_extents.x,
        -descriptor.chunk_half_extents.y <= descriptor.blade_offset(index).1 <= descriptor.chunk_half_extents.y,
        descriptor.covers(descriptor.blade_at(index)),
{
    let seed = chunk_seed(descriptor.chunk_xy);
    lemma_offset_within_bounds(draw(seed, (2 * index) as u64), (2 * descriptor.chunk_half_extents.x) as u64);
    lemma_offset_within_bounds(draw(seed, (2 * index + 1) as u64), (2 * descriptor.chunk_half_extents.y) as u64);
}

/// Scale and height modifier act on every blade alike, and proportionally:
/// at unit scale and unit modifier a blade has its own height and width, and
/// a larger factor never gives a smaller blade.
pub proof fn lemma_blade_size_monotonic(small: GrassDescriptor, large: GrassDescriptor)
    requires
        small.scale <= large.scale,
        small.height_modifier <= large.height_modifier,
    ensures
        small.blade_height() <= large.blade_height(),
        small.blade_half_width() <= large.blade_half_width(),
        small.scale == 1000 && small.height_modifier == 1000 ==> small.blade_height() == BLADE_HEIGHT
            && small.blade_half_width() == BLADE_HALF_WIDTH,
{
    let a = BLADE_HEIGHT * small.scale / 1000;
    let b = BLADE_HEIGHT * large.scale / 1000;
    assert(0 <= a <= b);
    assert(a * small.height_modifier <= b * large.height_modifier) by (nonlinear_arith)
        requires
            0 <= a <= b,
            0 <= small.height_modifier <= large.height_modifier,
    ;
}

/// The lean of a blade never exceeds the reach, and repeats after one period.
pub proof fn lemma_sway_bounded_and_periodic(time: u64, x: i64, z: i64)
    ensures
        -SWAY_REACH <= sway_at(time, x, z) <= SWAY_REACH,
        time + SWAY_PERIOD <= u64::MAX ==> sway_at((time + SWAY_PERIOD) as u64, x, z) == sway_at(time, x, z),
{
}

/// The lean is continuous in time: between two moments `dt` thousandths of a
/// second apart it changes by at most `dt`, also where the wave turns and
/// where a cycle ends.
pub proof fn lemma_sway_continuous_in_time(t1: u64, t2: u64, x: i64, z: i64)
    ensures
        gap(sway_at(t1, x, z), sway_at(t2, x, z)) <= gap(t1 as int, t2 as int),
{
    if t1 <= t2 {
        lemma_wave_steps(t1 + bias(x) + bias(z), t2 - t1);
    } else {
        lemma_wave_steps(t2 + bias(x) + bias(z), t1 - t2);
    }
}

/// The lean varies continuously over the ground: two blades differ in lean
/// by at most the sum of their distances along the two axes.
pub proof fn lemma_sway_continuous_in_space(time: u64, x1: i64, x2: i64, z1: i64, z2: i64)
    ensures
        gap(sway_at(time, x1, z1), sway_at(time, x2, z2)) <= gap(x1 as int, x2 as int) + gap(z1 as int, z2 as int),
{
    let s1 = time + bias(x1) + bias(z1);
    let s2 = time + bias(x2) + bias(z2);
    if s1 <= s2 {
        lemma_wave_steps(s1, s2 - s1);
    } else {
        lemma_wave_steps(s2, s1 - s2);
    }
}

proof fn lemma_wave_steps(start: int, step: int)
    requires
        0 <= start,
        0 <= step,
    ensures
        gap(
            triangle_wave(start % (SWAY_PERIOD as int)),
            triangle_wave((start + step) % (SWAY_PERIOD as int)),
        ) <= step,
{
    let p = SWAY_PERIOD as int;
    let a = start % p;
    let b = (start + step) % p;
    if step < p {
        assert(b == a + step || b == a + step - p);
    }
}

} // verus!
