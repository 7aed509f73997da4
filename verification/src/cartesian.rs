//! A step counter on a square grid: a cursor that walks the diagonal and
//! starts over at the grid's edge.

use vstd::prelude::*;

verus! {

/// Cursors on a square grid of side `size`.
#[derive(Debug)]
pub struct Cartesian {
    pub position: Vec<(i32, i32)>,
    pub size: usize,
}

impl Default for Cartesian {
    fn default() -> (cartesian: Self)
        ensures
            cartesian.size == 0,
            cartesian.position@ == Seq::<(i32, i32)>::empty(),
    {
        Cartesian { position: Vec::new(), size: 0 }
    }
}

/// A coordinate one step on: the next one, or 0 where that reaches the
/// grid's side.
pub open spec fn stepped(coordinate: i32, size: usize) -> int {
    if coordinate + 1 >= size {
        0
    } else {
        coordinate + 1
    }
}

/// A cursor one step on along both axes.
pub open spec fn ticked(cursor: (i32, i32), size: usize) -> (i32, i32) {
    (stepped(cursor.0, size) as i32, stepped(cursor.1, size) as i32)
}

fn step(coordinate: i32, size: usize) -> (next: i32)
    requires
        coordinate < i32::MAX,
    ensures
        next == stepped(coordinate, size),
{
    let next: i32 = coordinate + 1;
    if next >= 0 && next as u64 >= size as u64 {
        0
    } else {
        next
    }
}

/// A grid of side 1 with one cursor at the origin.
pub fn cartesian_setup(cartesian: &mut Cartesian)
    ensures
        final(cartesian).size == 1,
        final(cartesian).position@ == seq![(0i32, 0i32)],
{
    cartesian.size = 1;
    let mut position: Vec<(i32, i32)> = Vec::new();
    position.push((0, 0));
    assert(position@ =~= seq![(0i32, 0i32)]);
    cartesian.position = position;
}

/// One tick of the clock. If the timer has run out, the first cursor moves
/// one step on along both axes, and where it now stands is returned; if not,
/// nothing happens. To move, there has to be a cursor, and it must not stand
/// at the end of the number range.
pub fn tick(cartesian: &mut Cartesian, timer_finished: bool) -> (moved: Option<(i32, i32)>)
    requires
        timer_finished ==> old(cartesian).position@.len() > 0 && old(cartesian).position@[0].0 < i32::MAX && old(
            cartesian,
        ).position@[0].1 < i32::MAX,
    ensures
        timer_finished ==> moved == Some(ticked(old(cartesian).position@[0], old(cartesian).size))
            && final(cartesian).position@ == old(cartesian).position@.update(
            0,
            ticked(old(cartesian).position@[0], old(cartesian).size),
        ),
        !timer_finished ==> moved is None && final(cartesian).position@ == old(cartesian).position@,
        final(cartesian).size == old(cartesian).size,
{
    if !timer_finished {
        return None;
    }
    let here: (i32, i32) = cartesian.position[0];
    let there: (i32, i32) = (step(here.0, cartesian.size), step(here.1, cartesian.size));
    cartesian.position.set(0, there);
    Some(there)
}

} // verus!
