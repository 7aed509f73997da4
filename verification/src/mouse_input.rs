//! Picking a note up with the pointer and dragging it about.

use vstd::prelude::*;
use crate::geometry::{collide, overlaps, Bounds};
use crate::note::{note_views, Note, NoteView};
use crate::world::World;
use crate::world::WorldView;

verus! {

/// Half the side of the square that stands for the pointer, in sub-units:
/// the square is one unit wide.
pub const CURSOR_HALF_EXTENT: u64 = 500_000;

/// The note that the pointer holds, if any.
#[derive(Clone, Copy, Debug, PartialEq, Eq)]
pub struct Selected {
    pub entity: Option<usize>,
}

impl Default for Selected {
    fn default() -> (selected: Self)
        ensures
            selected.entity is None,
    {
        Selected { entity: None }
    }
}

/// What the left button did in a frame.
#[derive(Clone, Copy, Debug, PartialEq, Eq, Structural)]
pub struct ButtonState {
    pub just_pressed: bool,
    pub pressed: bool,
    pub just_released: bool,
}

/// The square that stands for the pointer at `cursor`.
pub open spec fn cursor_box(cursor: (i64, i64)) -> Bounds {
    Bounds {
        center_x: cursor.0,
        center_y: cursor.1,
        half_width: CURSOR_HALF_EXTENT,
        half_height: CURSOR_HALF_EXTENT,
    }
}

/// Where the pointer stands after the moves of a frame: at the last of
/// them, or at the origin if it did not move.
pub open spec fn cursor_after(moves: Seq<(i64, i64)>) -> (i64, i64) {
    if moves.len() == 0 {
        (0, 0)
    } else {
        moves.last()
    }
}

/// Whether `note` lies under the pointer. Lanes play no part.
pub open spec fn under_cursor(note: NoteView, cursor: (i64, i64)) -> bool {
    overlaps(note.bounds, cursor_box(cursor))
}

/// The note that a click at `cursor` picks: the last of `notes` under the
/// pointer.
pub open spec fn picked(notes: Seq<NoteView>, cursor: (i64, i64)) -> Option<usize>
    decreases notes.len(),
{
    if notes.len() == 0 {
        None
    } else if under_cursor(notes.last(), cursor) {
        Some(notes.last().id)
    } else {
        picked(notes.drop_last(), cursor)
    }
}

/// The selection after a frame. Only a frame in which the button went down
/// can change it. Then, if a note lies under the pointer, a button that is
/// held selects that note, and a button that was let go again within the
/// frame clears the selection.
pub open spec fn selection_after(
    selected: Option<usize>,
    notes: Seq<NoteView>,
    moves: Seq<(i64, i64)>,
    button: ButtonState,
) -> Option<usize> {
    if !button.just_pressed {
        selected
    } else {
        match picked(notes, cursor_after(moves)) {
            None => selected,
            Some(id) => if button.pressed {
                Some(id)
            } else if button.just_released {
                None
            } else {
                selected
            },
        }
    }
}

/// The world after a frame of dragging: while the button is held, the
/// selected note follows the pointer to where it went last.
pub open spec fn dragged(w: WorldView, selected: Option<usize>, pressed: bool, moves: Seq<(i64, i64)>) -> WorldView {
    match selected {
        Some(id) => if pressed && moves.len() > 0 {
            w.with_note_moved(id, moves.last())
        } else {
            w
        },
        None => w,
    }
}

/// `picked` names a note under the pointer behind which no other note lies
/// under it, and it names none only if no note lies under it.
pub proof fn lemma_picked_is_last_hit(notes: Seq<NoteView>, cursor: (i64, i64))
    ensures
        match picked(notes, cursor) {
            Some(id) => exists|j: int|
                {
                    &&& 0 <= j < notes.len()
                    &&& (#[trigger] notes[j]).id == id
                    &&& under_cursor(notes[j], cursor)
                    &&& forall|k: int| j < k < notes.len() ==> !under_cursor(#[trigger] notes[k], cursor)
                },
            None => forall|k: int| 0 <= k < notes.len() ==> !under_cursor(#[trigger] notes[k], cursor),
        },
    decreases notes.len(),
{
    if notes.len() > 0 {
        let earlier = notes.drop_last();
        if under_cursor(notes.last(), cursor) {
            let j = notes.len() - 1;
            assert(notes[j].id == notes.last().id && under_cursor(notes[j], cursor));
        } else {
            lemma_picked_is_last_hit(earlier, cursor);
            match picked(earlier, cursor) {
                Some(id) => {
                    let j = choose|j: int|
                        {
                            &&& 0 <= j < earlier.len()
                            &&& (#[trigger] earlier[j]).id == id
                            &&& under_cursor(earlier[j], cursor)
                            &&& forall|k: int| j < k < earlier.len() ==> !under_cursor(#[trigger] earlier[k], cursor)
                        };
                    assert(notes[j] == earlier[j]);
                    assert forall|k: int| j < k < notes.len() implies !under_cursor(
                        #[trigger] notes[k],
                        cursor,
                    ) by {
                        if k < earlier.len() {
                            assert(notes[k] == earlier[k]);
                        }
                    }
                },
                None => {
                    assert forall|k: int| 0 <= k < notes.len() implies !under_cursor(
                        #[trigger] notes[k],
                        cursor,
                    ) by {
                        if k < earlier.len() {
                            assert(notes[k] == earlier[k]);
                        }
                    }
                },
            }
        }
    }
}

/// Finds the note that a click at `cursor` picks.
pub fn pick(notes: &Vec<Note>, cursor: (i64, i64)) -> (found: Option<usize>)
    ensures
        found == picked(note_views(notes@), cursor),
{
    let pointer = Bounds {
        center_x: cursor.0,
        center_y: cursor.1,
        half_width: CURSOR_HALF_EXTENT,
        half_height: CURSOR_HALF_EXTENT,
    };
    let mut found: Option<usize> = None;
    let mut i: usize = 0;
    proof {
        assert(note_views(notes@.take(0)) =~= Seq::<NoteView>::empty());
    }
    while i < notes.len()
        invariant
            i <= notes@.len(),
            pointer == cursor_box(cursor),
            found == picked(note_views(notes@.take(i as int)), cursor),
        decreases notes@.len() - i,
    {
        if collide(&notes[i].bounds(), &pointer) {
            found = Some(notes[i].id());
        }
        proof {
            let upto = note_views(notes@.take(i as int + 1));
            assert(upto.drop_last() =~= note_views(notes@.take(i as int)));
            assert(upto.last() == notes@[i as int]@);
        }
        i += 1;
    }
    proof {
        assert(notes@.take(i as int) =~= notes@);
    }
    found
}

/// Updates the selection for one frame, from the pointer's moves and the
/// button's state in that frame.
pub fn select_note(selected: &mut Selected, notes: &Vec<Note>, cursor_moves: &Vec<(i64, i64)>, button: ButtonState)
    ensures
        final(selected).entity == selection_after(old(selected).entity, note_views(notes@), cursor_moves@, button),
{
    let cursor: (i64, i64) = if cursor_moves.len() == 0 {
        (0, 0)
    } else {
        cursor_moves[cursor_moves.len() - 1]
    };
    if button.just_pressed {
        if let Some(id) = pick(notes, cursor) {
            if button.pressed {
                selected.entity = Some(id);
            } else if button.just_released {
                selected.entity = None;
            }
        }
    }
}

/// Drags the selected note for one frame: while the button is held it goes
/// where the pointer went last, and its pitch follows its height.
pub fn move_note(world: &mut World, selected: &Selected, pressed: bool, cursor_moves: &Vec<(i64, i64)>)
    requires
        old(world)@.wf(),
    ensures
        final(world)@ == dragged(old(world)@, selected.entity, pressed, cursor_moves@),
        final(world)@.wf(),
{
    if let Some(id) = selected.entity {
        if pressed && cursor_moves.len() > 0 {
            let _ = world.relocate_note(id, cursor_moves[cursor_moves.len() - 1]);
        }
    }
}

} // verus!
