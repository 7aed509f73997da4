//! Axis-aligned rectangles and the strict overlap test between them.

use vstd::prelude::*;

verus! {

/// An axis-aligned rectangle, given by its centre and its half-extents.
///
/// Coordinates are whole numbers of field sub-units (see
/// [`SUBUNITS_PER_UNIT`]); the half-extents are never negative.
#[derive(Clone, Copy, Debug, PartialEq, Eq, Structural)]
pub struct Bounds {
    pub center_x: i64,
    pub center_y: i64,
    pub half_width: u64,
    pub half_height: u64,
}

/// How many sub-units make one field unit. Positions are kept in sub-units so
/// that a speed in units per second times a time in microseconds is a
/// distance without rounding.
pub const SUBUNITS_PER_UNIT: i64 = 1_000_000;

/// Whether two intervals, each given by centre and half-length, share more
/// than a boundary point.
pub open spec fn spans_overlap(a_center: int, a_half: int, b_center: int, b_half: int) -> bool {
    a_center - a_half < b_center + b_half && b_center - b_half < a_center + a_half
}

/// Strict overlap of two rectangles: their projections intersect on both
/// axes, and rectangles that only touch do not overlap.
pub open spec fn overlaps(a: Bounds, b: Bounds) -> bool {
    &&& spans_overlap(a.center_x as int, a.half_width as int, b.center_x as int, b.half_width as int)
    &&& spans_overlap(a.center_y as int, a.half_height as int, b.center_y as int, b.half_height as int)
}

fn spans_collide(a_center: i64, a_half: u64, b_center: i64, b_half: u64) -> (hit: bool)
    ensures
        hit == spans_overlap(a_center as int, a_half as int, b_center as int, b_half as int),
{
    let a_lo: i128 = a_center as i128 - a_half as i128;
    let a_hi: i128 = a_center as i128 + a_half as i128;
    let b_lo: i128 = b_center as i128 - b_half as i128;
    let b_hi: i128 = b_center as i128 + b_half as i128;
    a_lo < b_hi && b_lo < a_hi
}

/// Tests two rectangles for strict overlap.
pub fn collide(a: &Bounds, b: &Bounds) -> (hit: bool)
    ensures
        hit == overlaps(*a, *b),
{
    spans_collide(a.center_x, a.half_width, b.center_x, b.half_width)
        && spans_collide(a.center_y, a.half_height, b.center_y, b.half_height)
}

} // verus!
