use vstd::prelude::*;

verus! {

/// Increment between consecutive inputs of the mixing function.
pub const GOLDEN_GAMMA: u64 = 0x9E37_79B9_7F4A_7C15;

/// A 64-bit finalizer made of xor-shifts and multiplications by odd constants.
pub open spec fn mix(z: u64) -> u64 {
    let a = (z ^ (z >> 30)).wrapping_mul(0xBF58_476D_1CE4_E5B9);
    let b = (a ^ (a >> 27)).wrapping_mul(0x94D0_49BB_1331_11EB);
    b ^ (b >> 31)
}

/// The `k`-th value of the pseudo-random stream that `seed` selects.
pub open spec fn draw(seed: u64, k: u64) -> u64 {
    mix(seed.wrapping_add(GOLDEN_GAMMA.wrapping_mul(k.wrapping_add(1))))
}

/// Maps a raw 64-bit value to a signed offset within a span of width
/// `extent` centred on zero: one of the `2 * (extent / 2) + 1` integers from
/// `-(extent / 2)` to `extent / 2`.
pub open spec fn offset_within(raw: u64, extent: u64) -> int {
    (raw as int) % (2 * (extent / 2) + 1) - extent / 2
}

pub fn mix_bits(z: u64) -> (r: u64)
    ensures
        r == mix(z),
{
    let a = (z ^ (z >> 30)).wrapping_mul(0xBF58_476D_1CE4_E5B9);
    let b = (a ^ (a >> 27)).wrapping_mul(0x94D0_49BB_1331_11EB);
    b ^ (b >> 31)
}

pub fn draw_value(seed: u64, k: u64) -> (r: u64)
    ensures
        r == draw(seed, k),
{
    mix_bits(seed.wrapping_add(GOLDEN_GAMMA.wrapping_mul(k.wrapping_add(1))))
}

/// Places a raw value within `[-extent / 2, extent / 2]`.
pub fn place_within(raw: u64, extent: u64) -> (offset: i64)
    ensures
        offset == offset_within(raw, extent),
        -(extent as int) <= 2 * offset <= extent,
{
    let half: u64 = extent / 2;
    let span: u64 = 2 * half + 1;
    let r: u64 = raw % span;
    if r >= half {
        (r - half) as i64
    } else {
        -((half - r) as i64)
    }
}

/// Every offset lies in the span, whatever the raw value.
pub proof fn lemma_offset_within_bounds(raw: u64, extent: u64)
    ensures
        -(extent / 2) <= offset_within(raw, extent) <= extent / 2,
        -(extent as int) <= 2 * offset_within(raw, extent) <= extent,
        i64::MIN < offset_within(raw, extent) <= i64::MAX,
{
}

/// Every integer of the span is the offset of some raw value: no part of the
/// span is left out.
pub proof fn lemma_offset_within_covers(extent: u64, target: int)
    requires
        -(extent / 2) <= target <= extent / 2,
    ensures
        offset_within((target + extent / 2) as u64, extent) == target,
{
    let half = (extent / 2) as int;
    let raw = target + half;
    assert(0 <= raw < 2 * half + 1);
    assert(raw % (2 * half + 1) == raw) by {
        vstd::arithmetic::div_mod::lemma_small_mod(raw as nat, (2 * half + 1) as nat);
    }
}

} // verus!
