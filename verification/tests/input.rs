use sequencer::cartesian::{cartesian_setup, tick, Cartesian};
use sequencer::geometry::Bounds;
use sequencer::mouse_input::{move_note, pick, select_note, ButtonState, Selected, CURSOR_HALF_EXTENT};
use sequencer::note::{CollisionState, Note};
use sequencer::sequence::GlobalSequencerSettings;
use sequencer::world::World;

const DOWN: ButtonState = ButtonState { just_pressed: true, pressed: true, just_released: false };
const HELD: ButtonState = ButtonState { just_pressed: false, pressed: true, just_released: false };
const UP: ButtonState = ButtonState { just_pressed: false, pressed: false, just_released: true };
const CLICK: ButtonState = ButtonState { just_pressed: true, pressed: false, just_released: true };
const IDLE: ButtonState = ButtonState { just_pressed: false, pressed: false, just_released: false };

fn note_at(id: usize, lane: u32, x: i64, y: i64) -> Note {
    let bounds = Bounds { center_x: x, center_y: y, half_width: 60_000_000, half_height: 10_000_000 };
    Note::new(id, lane, bounds, GlobalSequencerSettings::default(), 200_000_000)
}

fn three_notes() -> Vec<Note> {
    vec![
        note_at(0, 0, 100_000_000, 100_000_000),
        note_at(1, 1, 150_000_000, 100_000_000),
        note_at(2, 2, 400_000_000, 100_000_000),
    ]
}

#[test]
fn nothing_is_selected_at_first() {
    assert_eq!(Selected::default(), Selected { entity: None });
    assert_eq!(CURSOR_HALF_EXTENT, 500_000);
}

#[test]
fn pick_takes_the_last_note_under_the_pointer() {
    let notes = three_notes();
    assert_eq!(pick(&notes, (50_000_000, 100_000_000)), Some(0));
    assert_eq!(pick(&notes, (120_000_000, 100_000_000)), Some(1));
    assert_eq!(pick(&notes, (400_000_000, 95_000_000)), Some(2));
    assert_eq!(pick(&notes, (280_000_000, 100_000_000)), None);
    assert_eq!(pick(&notes, (100_000_000, 150_000_000)), None);
    assert_eq!(pick(&Vec::new(), (0, 0)), None);
}

#[test]
fn pointer_touching_a_note_does_not_pick_it() {
    let notes = three_notes();
    // Note 0 spans 40..160 units; the pointer is half a unit wide on each side.
    assert_eq!(pick(&notes, (39_500_000, 100_000_000)), None);
    assert_eq!(pick(&notes, (39_500_001, 100_000_000)), Some(0));
}

#[test]
fn press_over_a_note_selects_it() {
    let notes = three_notes();
    let mut selected = Selected::default();
    select_note(&mut selected, &notes, &vec![(0, 0), (120_000_000, 100_000_000)], DOWN);
    assert_eq!(selected.entity, Some(1));
}

#[test]
fn press_over_nothing_keeps_the_selection() {
    let notes = three_notes();
    let mut selected = Selected { entity: Some(2) };
    select_note(&mut selected, &notes, &vec![(280_000_000, 100_000_000)], DOWN);
    assert_eq!(selected.entity, Some(2));
}

#[test]
fn pointer_that_did_not_move_counts_as_at_the_origin() {
    let notes = vec![note_at(0, 0, 0, 0), note_at(1, 0, 400_000_000, 0)];
    let mut selected = Selected::default();
    select_note(&mut selected, &notes, &Vec::new(), DOWN);
    assert_eq!(selected.entity, Some(0));
}

#[test]
fn only_a_press_changes_the_selection() {
    let notes = three_notes();
    for button in [HELD, UP, IDLE] {
        let mut selected = Selected { entity: Some(2) };
        select_note(&mut selected, &notes, &vec![(100_000_000, 100_000_000)], button);
        assert_eq!(selected.entity, Some(2));
        let mut nothing = Selected::default();
        select_note(&mut nothing, &notes, &vec![(100_000_000, 100_000_000)], button);
        assert_eq!(nothing.entity, None);
    }
}

#[test]
fn press_and_release_in_one_frame_clears_the_selection() {
    let notes = three_notes();
    let mut selected = Selected { entity: Some(2) };
    select_note(&mut selected, &notes, &vec![(100_000_000, 100_000_000)], CLICK);
    assert_eq!(selected.entity, None);
    let mut kept = Selected { entity: Some(2) };
    select_note(&mut kept, &notes, &vec![(280_000_000, 100_000_000)], CLICK);
    assert_eq!(kept.entity, Some(2));
    let odd = ButtonState { just_pressed: true, pressed: false, just_released: false };
    let mut same = Selected { entity: Some(2) };
    select_note(&mut same, &notes, &vec![(100_000_000, 100_000_000)], odd);
    assert_eq!(same.entity, Some(2));
}

fn small_world() -> World {
    let mut w = match World::new(400_000_000, 200_000_000) {
        Ok(w) => w,
        Err(_) => panic!("a field with a size must be accepted"),
    };
    let bounds = Bounds { center_x: 100_000_000, center_y: 100_000_000, half_width: 60_000_000, half_height: 10_000_000 };
    w.spawn_note(0, bounds, GlobalSequencerSettings::default());
    w.spawn_note(1, bounds, GlobalSequencerSettings::default());
    w
}

#[test]
fn held_button_drags_the_selected_note_to_the_last_position() {
    let mut w = small_world();
    let selected = Selected { entity: Some(1) };
    move_note(&mut w, &selected, true, &vec![(10, 20), (30_000_000, 200_000_000)]);
    assert_eq!(w.notes()[1].bounds().center_x, 30_000_000);
    assert_eq!(w.notes()[1].bounds().center_y, 200_000_000);
    assert_eq!(w.notes()[1].bounds().half_width, 60_000_000);
    assert_eq!(w.notes()[1].pitch(), 110);
    assert_eq!(w.notes()[1].state(), CollisionState::NoCollision);
    assert_eq!(w.notes()[0].bounds().center_x, 100_000_000);
    assert_eq!(w.notes()[0].pitch(), 75);
}

#[test]
fn nothing_is_dragged_without_button_selection_or_motion() {
    let mut w = small_world();
    move_note(&mut w, &Selected { entity: Some(1) }, false, &vec![(10, 20)]);
    move_note(&mut w, &Selected { entity: None }, true, &vec![(10, 20)]);
    move_note(&mut w, &Selected { entity: Some(1) }, true, &Vec::new());
    move_note(&mut w, &Selected { entity: Some(7) }, true, &vec![(10, 20)]);
    for n in w.notes() {
        assert_eq!(n.bounds().center_x, 100_000_000);
        assert_eq!(n.bounds().center_y, 100_000_000);
        assert_eq!(n.pitch(), 75);
    }
}

#[test]
fn cartesian_cursor_walks_and_wraps() {
    let mut grid = Cartesian::default();
    assert_eq!(grid.size, 0);
    assert!(grid.position.is_empty());
    cartesian_setup(&mut grid);
    assert_eq!(grid.size, 1);
    assert_eq!(grid.position, vec![(0, 0)]);
    assert_eq!(tick(&mut grid, true), Some((0, 0)));
    grid.size = 3;
    assert_eq!(tick(&mut grid, false), None);
    assert_eq!(grid.position, vec![(0, 0)]);
    assert_eq!(tick(&mut grid, true), Some((1, 1)));
    assert_eq!(tick(&mut grid, true), Some((2, 2)));
    assert_eq!(grid.position, vec![(2, 2)]);
    assert_eq!(tick(&mut grid, true), Some((0, 0)));
    grid.position = vec![(1, 2), (5, 5)];
    assert_eq!(tick(&mut grid, true), Some((2, 0)));
    assert_eq!(grid.position, vec![(2, 0), (5, 5)]);
    grid.position = vec![(-5, 7)];
    assert_eq!(tick(&mut grid, true), Some((-4, 0)));
}

#[test]
fn cartesian_clock_that_has_not_run_out_moves_nothing() {
    let mut grid = Cartesian::default();
    assert_eq!(tick(&mut grid, false), None);
    assert!(grid.position.is_empty());
    assert_eq!(grid.size, 0);
}
