//! The position-to-pitch quantizer: a linear rescale of a coordinate into a
//! pitch range, clamped to the MIDI range and rounded down.

use vstd::prelude::*;

verus! {

/// The lowest MIDI pitch.
pub const MIDI_PITCH_MIN: u8 = 0;

/// The highest MIDI pitch.
pub const MIDI_PITCH_MAX: u8 = 127;

/// The largest integer not above the rational `n / d`, for `d != 0`.
pub open spec fn floor_div(n: int, d: int) -> int
    recommends
        d != 0,
{
    if d > 0 {
        n / d
    } else {
        (-n) / (-d)
    }
}

/// The nearest value to `p` inside the closed MIDI range.
pub open spec fn clamp_to_midi(p: int) -> int {
    if p < 0 {
        0
    } else if p > 127 {
        127
    } else {
        p
    }
}

/// `value` carried linearly from `[old_min, old_max]` to `[new_min, new_max]`
/// and rounded down, before any clamping. Meaningful when
/// `old_min != old_max`.
pub open spec fn rescaled(value: int, old_min: int, old_max: int, new_min: int, new_max: int) -> int
    recommends
        old_min != old_max,
{
    new_min + floor_div((value - old_min) * (new_max - new_min), old_max - old_min)
}

/// The pitch of a coordinate: the rescaled value clamped to the MIDI range.
/// An empty domain (`old_min == old_max`) has no slope; every coordinate
/// then maps to the lower pitch bound, clamped likewise.
pub open spec fn midi_pitch(value: int, old_min: int, old_max: int, new_min: int, new_max: int) -> int {
    if old_min == old_max {
        clamp_to_midi(new_min)
    } else {
        clamp_to_midi(rescaled(value, old_min, old_max, new_min, new_max))
    }
}

/// `floor_div` is the floor of the exact quotient: the result times the
/// divisor is the nearest multiple of the divisor on the lower side of `n`.
pub proof fn lemma_floor_div_brackets(n: int, d: int)
    requires
        d != 0,
    ensures
        d > 0 ==> floor_div(n, d) * d <= n < (floor_div(n, d) + 1) * d,
        d < 0 ==> floor_div(n, d) * d >= n > (floor_div(n, d) + 1) * d,
{
    if d > 0 {
        let q = n / d;
        assert(q * d <= n < (q + 1) * d) by (nonlinear_arith)
            requires
                d > 0,
                q == n / d,
        ;
    } else {
        let e = -d;
        let m = -n;
        let q = m / e;
        assert(q * e <= m < (q + 1) * e) by (nonlinear_arith)
            requires
                e > 0,
                q == m / e,
        ;
        assert(q * d == -(q * e) && (q + 1) * d == -((q + 1) * e)) by (nonlinear_arith)
            requires
                d == -e,
        ;
    }
}

/// A pitch always lies in the MIDI range, whatever the inputs.
pub proof fn lemma_midi_pitch_in_range(value: int, old_min: int, old_max: int, new_min: int, new_max: int)
    ensures
        0 <= midi_pitch(value, old_min, old_max, new_min, new_max) <= 127,
{
}

/// The ends of the domain map to the ends of the pitch range (clamped).
pub proof fn lemma_midi_pitch_at_domain_ends(old_min: int, old_max: int, new_min: int, new_max: int)
    requires
        old_min != old_max,
    ensures
        midi_pitch(old_min, old_min, old_max, new_min, new_max) == clamp_to_midi(new_min),
        midi_pitch(old_max, old_min, old_max, new_min, new_max) == clamp_to_midi(new_max),
{
    let d = old_max - old_min;
    let s = new_max - new_min;
    assert((old_min - old_min) * s == 0);
    assert(floor_div(0, d) == 0) by (nonlinear_arith)
        requires
            d != 0,
    ;
    assert(floor_div(d * s, d) == s) by (nonlinear_arith)
        requires
            d != 0,
    ;
}

/// Values outside the domain are not held to the pitch range: the line is
/// followed beyond its ends and only the MIDI range cuts it off. Whenever the
/// rescaled value leaves the MIDI range the pitch is exactly 0 or 127.
pub proof fn lemma_midi_pitch_saturates(value: int, old_min: int, old_max: int, new_min: int, new_max: int)
    requires
        old_min != old_max,
    ensures
        rescaled(value, old_min, old_max, new_min, new_max) <= 0 ==> midi_pitch(
            value,
            old_min,
            old_max,
            new_min,
            new_max,
        ) == 0,
        rescaled(value, old_min, old_max, new_min, new_max) >= 127 ==> midi_pitch(
            value,
            old_min,
            old_max,
            new_min,
            new_max,
        ) == 127,
        0 <= rescaled(value, old_min, old_max, new_min, new_max) <= 127 ==> midi_pitch(
            value,
            old_min,
            old_max,
            new_min,
            new_max,
        ) == rescaled(value, old_min, old_max, new_min, new_max),
{
}

/// Over a rising domain and a rising pitch range the pitch never falls as the
/// coordinate grows.
pub proof fn lemma_midi_pitch_monotone(
    low: int,
    high: int,
    old_min: int,
    old_max: int,
    new_min: int,
    new_max: int,
)
    requires
        low <= high,
        old_min < old_max,
        new_min <= new_max,
    ensures
        midi_pitch(low, old_min, old_max, new_min, new_max) <= midi_pitch(
            high,
            old_min,
            old_max,
            new_min,
            new_max,
        ),
{
    let d = old_max - old_min;
    let s = new_max - new_min;
    let a = (low - old_min) * s;
    let b = (high - old_min) * s;
    assert(a <= b) by (nonlinear_arith)
        requires
            low <= high,
            s >= 0,
            a == (low - old_min) * s,
            b == (high - old_min) * s,
    ;
    vstd::arithmetic::div_mod::lemma_div_is_ordered(a, b, d);
}

/// Floor division on machine integers whose magnitudes leave headroom.
fn floor_quotient(n: i128, d: i128) -> (q: i128)
    requires
        d != 0,
        -0x1_0000_0000_0000_0000_0000 < n < 0x1_0000_0000_0000_0000_0000,
        -0x1_0000_0000_0000_0000_0000 < d < 0x1_0000_0000_0000_0000_0000,
    ensures
        q == floor_div(n as int, d as int),
        -0x1_0000_0000_0000_0000_0000 <= q < 0x1_0000_0000_0000_0000_0000,
{
    let (num, den): (i128, i128) = if d < 0 {
        (-n, -d)
    } else {
        (n, d)
    };
    assert(floor_div(n as int, d as int) == num as int / den as int);
    if num >= 0 {
        let q: i128 = num / den;
        assert(0 <= num as int / den as int <= num) by (nonlinear_arith)
            requires
                num >= 0,
                den > 0,
        ;
        q
    } else {
        let m: i128 = -num;
        let k: i128 = m / den;
        let r: i128 = m % den;
        assert(0 <= k <= m && m == k * den + r && 0 <= r < den) by (nonlinear_arith)
            requires
                m > 0,
                den > 0,
                k == m as int / den as int,
                r == m as int % den as int,
        ;
        if r == 0 {
            assert(num as int / den as int == -k) by (nonlinear_arith)
                requires
                    den > 0,
                    num == -m,
                    m == k * den + r,
                    r == 0,
            ;
            -k
        } else {
            assert(num as int / den as int == -k - 1) by (nonlinear_arith)
                requires
                    den > 0,
                    num == -m,
                    m == k * den + r,
                    0 < r < den,
            ;
            -k - 1
        }
    }
}

fn clamp_pitch(p: i128) -> (pitch: u8)
    ensures
        pitch == clamp_to_midi(p as int),
{
    if p < 0 {
        MIDI_PITCH_MIN
    } else if p > 127 {
        MIDI_PITCH_MAX
    } else {
        p as u8
    }
}

/// Maps `value` from the domain `[old_min, old_max]` to a MIDI pitch in the
/// range that `new_min` and `new_max` span.
///
/// The result is clamped to `0..=127`, not to the pitch range, so a value
/// beyond the domain may give a pitch beyond `new_min` or `new_max`. With an
/// empty domain the lower pitch bound is returned (clamped).
pub fn map_to_midi_range(value: i64, old_min: i64, old_max: i64, new_min: u8, new_max: u8) -> (pitch: u8)
    ensures
        pitch == midi_pitch(value as int, old_min as int, old_max as int, new_min as int, new_max as int),
        pitch <= MIDI_PITCH_MAX,
{
    if old_min == old_max {
        return clamp_pitch(new_min as i128);
    }
    let offset: i128 = value as i128 - old_min as i128;
    let span: i128 = new_max as i128 - new_min as i128;
    let domain: i128 = old_max as i128 - old_min as i128;
    assert(-0x1_0000_0000_0000_0000_0000 < offset * span < 0x1_0000_0000_0000_0000_0000)
        by (nonlinear_arith)
        requires
            -0x1_0000_0000_0000_0000 <= offset <= 0x1_0000_0000_0000_0000,
            -255 <= span <= 255,
    ;
    let scaled: i128 = offset * span;
    let quotient: i128 = floor_quotient(scaled, domain);
    clamp_pitch(new_min as i128 + quotient)
}

} // verus!
