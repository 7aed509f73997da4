use sequencer::event::{EventBus, NoteEvent, NoteOffEvent, NoteOnEvent};
use sequencer::geometry::{collide, Bounds};
use sequencer::note::{note_pitch, Collider, CollisionState, Note, Trigger};
use sequencer::playhead::{check_for_collisions, check_note_on, is_struck, Playhead, PlayheadDirection};
use sequencer::sequence::GlobalSequencerSettings;

fn rect(x: i64, y: i64, half_width: u64, half_height: u64) -> Bounds {
    Bounds { center_x: x, center_y: y, half_width, half_height }
}

fn playhead_in(lane: u32, x: i64) -> Playhead {
    match Playhead::new(0, lane, rect(x, 50, 2, 50), 1, PlayheadDirection::Right) {
        Ok(p) => p,
        Err(_) => panic!("a positive speed must be accepted"),
    }
}

fn note_in(id: usize, lane: u32, x: i64) -> Note {
    Note::new(id, lane, rect(x, 50, 10, 10), GlobalSequencerSettings::default(), 100)
}

fn on(note: usize, pitch: u8) -> NoteEvent {
    NoteEvent::On(NoteOnEvent { note, pitch })
}

fn off(note: usize) -> NoteEvent {
    NoteEvent::Off(NoteOffEvent { note })
}

#[test]
fn overlapping_rectangles_collide() {
    assert!(collide(&rect(0, 0, 10, 10), &rect(15, 5, 10, 10)));
    assert!(collide(&rect(15, 5, 10, 10), &rect(0, 0, 10, 10)));
    assert!(collide(&rect(0, 0, 10, 10), &rect(0, 0, 1, 1)));
    assert!(collide(&rect(0, 0, 1, 1), &rect(0, 0, 10, 10)));
}

#[test]
fn touching_rectangles_do_not_collide() {
    assert!(!collide(&rect(0, 0, 10, 10), &rect(20, 0, 10, 10)));
    assert!(!collide(&rect(0, 0, 10, 10), &rect(-20, 0, 10, 10)));
    assert!(!collide(&rect(0, 0, 10, 10), &rect(0, 20, 10, 10)));
    assert!(!collide(&rect(0, 0, 10, 10), &rect(0, -20, 10, 10)));
    assert!(collide(&rect(0, 0, 10, 10), &rect(19, 19, 10, 10)));
}

#[test]
fn rectangles_apart_on_one_axis_do_not_collide() {
    assert!(!collide(&rect(0, 0, 10, 10), &rect(5, 30, 10, 10)));
    assert!(!collide(&rect(0, 0, 10, 10), &rect(30, 5, 10, 10)));
}

#[test]
fn empty_rectangle_collides_only_strictly_inside() {
    assert!(collide(&rect(0, 0, 10, 10), &rect(3, 3, 0, 0)));
    assert!(!collide(&rect(0, 0, 10, 10), &rect(10, 0, 0, 0)));
    assert!(!collide(&rect(0, 0, 0, 0), &rect(0, 0, 0, 0)));
}

#[test]
fn collide_does_not_overflow_at_the_ends_of_the_range() {
    assert!(collide(&rect(i64::MAX, i64::MAX, u64::MAX, u64::MAX), &rect(i64::MIN, i64::MIN, u64::MAX, u64::MAX)));
    assert!(!collide(&rect(i64::MAX, 0, 1, 1), &rect(i64::MIN, 0, 1, 1)));
}

#[test]
fn scripted_overlaps_fire_on_off_on() {
    let mut collider = Collider::default();
    assert_eq!(collider.state(), CollisionState::NoCollision);
    let script = [false, true, true, false, false, true];
    let mut emitted: Vec<Option<Trigger>> = Vec::new();
    let mut states: Vec<CollisionState> = Vec::new();
    for overlap in script {
        emitted.push(collider.observe(overlap));
        states.push(collider.state());
    }
    assert_eq!(
        emitted,
        vec![None, Some(Trigger::NoteOn), None, Some(Trigger::NoteOff), None, Some(Trigger::NoteOn)]
    );
    assert_eq!(
        states,
        vec![
            CollisionState::NoCollision,
            CollisionState::CollisionStart,
            CollisionState::CollisionContinue,
            CollisionState::CollisionEnd,
            CollisionState::NoCollision,
            CollisionState::CollisionStart,
        ]
    );
}

#[test]
fn every_transition_of_the_table() {
    let table = [
        (CollisionState::NoCollision, true, CollisionState::CollisionStart, Some(Trigger::NoteOn)),
        (CollisionState::NoCollision, false, CollisionState::NoCollision, None),
        (CollisionState::CollisionStart, true, CollisionState::CollisionContinue, None),
        (CollisionState::CollisionStart, false, CollisionState::CollisionEnd, Some(Trigger::NoteOff)),
        (CollisionState::CollisionContinue, true, CollisionState::CollisionContinue, None),
        (CollisionState::CollisionContinue, false, CollisionState::CollisionEnd, Some(Trigger::NoteOff)),
        (CollisionState::CollisionEnd, true, CollisionState::CollisionStart, Some(Trigger::NoteOn)),
        (CollisionState::CollisionEnd, false, CollisionState::NoCollision, None),
    ];
    for (from, overlap, to, emitted) in table {
        let mut collider = Collider::default();
        let path: &[bool] = match from {
            CollisionState::NoCollision => &[],
            CollisionState::CollisionStart => &[true],
            CollisionState::CollisionContinue => &[true, true],
            CollisionState::CollisionEnd => &[true, false],
        };
        for step in path {
            collider.observe(*step);
        }
        assert_eq!(collider.state(), from);
        assert_eq!(collider.observe(overlap), emitted);
        assert_eq!(collider.state(), to);
    }
}

#[test]
fn retrigger_without_idle_frame() {
    let mut collider = Collider::default();
    assert_eq!(collider.observe(true), Some(Trigger::NoteOn));
    assert_eq!(collider.observe(false), Some(Trigger::NoteOff));
    assert_eq!(collider.observe(true), Some(Trigger::NoteOn));
    assert_eq!(collider.state(), CollisionState::CollisionStart);
}

#[test]
fn long_overlap_fires_once() {
    let mut collider = Collider::default();
    let mut ons = 0;
    let mut offs = 0;
    for _ in 0..100 {
        match collider.observe(true) {
            Some(Trigger::NoteOn) => ons += 1,
            Some(Trigger::NoteOff) => offs += 1,
            None => {}
        }
    }
    for _ in 0..100 {
        match collider.observe(false) {
            Some(Trigger::NoteOn) => ons += 1,
            Some(Trigger::NoteOff) => offs += 1,
            None => {}
        }
    }
    assert_eq!(ons, 1);
    assert_eq!(offs, 1);
    assert_eq!(collider.state(), CollisionState::NoCollision);
}

#[test]
fn triggers_alternate_on_any_script() {
    // Every script of ten frames, from every starting path.
    for bits in 0..1024u32 {
        let mut collider = Collider::default();
        let mut last: Option<Trigger> = None;
        for frame in 0..10 {
            let overlap = (bits >> frame) & 1 == 1;
            if let Some(t) = collider.observe(overlap) {
                match last {
                    None => assert_eq!(t, Trigger::NoteOn),
                    Some(before) => assert_ne!(t, before),
                }
                last = Some(t);
            }
        }
    }
}

#[test]
fn note_events_carry_id_and_pitch() {
    // Height 50 of 100 in 40..110 is pitch 75.
    let mut note = note_in(3, 0, 0);
    assert_eq!(note.pitch(), 75);
    assert_eq!(note.observe(false), None);
    assert_eq!(note.observe(true), Some(on(3, 75)));
    assert_eq!(note.state(), CollisionState::CollisionStart);
    assert_eq!(note.observe(true), None);
    assert_eq!(note.observe(false), Some(off(3)));
    assert_eq!(note.observe(false), None);
    assert_eq!(note.observe(true), Some(on(3, 75)));
}

#[test]
fn new_note_is_idle_and_tuned() {
    let note = Note::new(5, 2, rect(7, 25, 10, 10), GlobalSequencerSettings { pitch_min: 0, pitch_max: 100 }, 100);
    assert_eq!(note.id(), 5);
    assert_eq!(note.lane(), 2);
    assert_eq!(note.bounds(), rect(7, 25, 10, 10));
    assert_eq!(note.range(), GlobalSequencerSettings { pitch_min: 0, pitch_max: 100 });
    assert_eq!(note.pitch(), 25);
    assert_eq!(note.state(), CollisionState::NoCollision);
}

#[test]
fn relocate_retunes_and_keeps_the_state() {
    let mut note = note_in(0, 0, 0);
    note.observe(true);
    note.relocate(30, 100, 100);
    assert_eq!(note.bounds(), rect(30, 100, 10, 10));
    assert_eq!(note.pitch(), 110);
    assert_eq!(note.state(), CollisionState::CollisionStart);
    note.relocate(30, 1000, 100);
    assert_eq!(note.pitch(), 127);
    note.relocate(30, -1000, 100);
    assert_eq!(note.pitch(), 0);
}

#[test]
fn note_pitch_retunes_every_note() {
    let mut notes = vec![
        Note::new(0, 0, rect(0, 0, 1, 1), GlobalSequencerSettings::default(), 100),
        Note::new(1, 0, rect(0, 50, 1, 1), GlobalSequencerSettings::default(), 100),
        Note::new(2, 0, rect(0, 100, 1, 1), GlobalSequencerSettings { pitch_min: 10, pitch_max: 20 }, 100),
    ];
    assert_eq!(notes[0].pitch(), 40);
    assert_eq!(notes[1].pitch(), 75);
    assert_eq!(notes[2].pitch(), 20);
    note_pitch(&mut notes, 200);
    assert_eq!(notes[0].pitch(), 40);
    // 50 * 70 / 200 + 40 = 57.5, rounded down.
    assert_eq!(notes[1].pitch(), 57);
    assert_eq!(notes[2].pitch(), 15);
    note_pitch(&mut notes, 0);
    assert_eq!(notes[1].pitch(), 40);
    assert_eq!(notes[2].pitch(), 10);
}

#[test]
fn playhead_strikes_only_in_its_lane() {
    let note = note_in(0, 2, 100);
    assert!(playhead_in(2, 100).strikes(&note));
    assert!(!playhead_in(1, 100).strikes(&note));
    assert!(!playhead_in(2, 50).strikes(&note));
    assert!(is_struck(&vec![playhead_in(1, 100), playhead_in(2, 95)], &note));
    assert!(!is_struck(&vec![playhead_in(1, 100), playhead_in(3, 100)], &note));
    assert!(!is_struck(&Vec::new(), &note));
}

#[test]
fn playhead_touching_a_note_does_not_strike() {
    // The note spans 90..110, the playhead is 2 wide on each side.
    let note = note_in(0, 0, 100);
    assert!(!playhead_in(0, 88).strikes(&note));
    assert!(playhead_in(0, 89).strikes(&note));
    assert!(playhead_in(0, 111).strikes(&note));
    assert!(!playhead_in(0, 112).strikes(&note));
}

#[test]
fn other_lane_gives_no_events_wherever_it_is() {
    let mut notes = vec![note_in(0, 2, 100)];
    let mut bus = EventBus::new();
    let mut x = -50;
    while x <= 250 {
        check_for_collisions(&vec![playhead_in(1, x)], &mut notes, &mut bus);
        x += 1;
    }
    assert!(bus.is_empty());
    assert_eq!(notes[0].state(), CollisionState::NoCollision);
}

#[test]
fn collision_pass_emits_in_note_order() {
    let mut notes = vec![note_in(0, 0, 100), note_in(1, 1, 100), note_in(2, 0, 105), note_in(3, 0, 500)];
    let playheads = vec![playhead_in(0, 100)];
    let mut bus = EventBus::new();
    check_for_collisions(&playheads, &mut notes, &mut bus);
    assert_eq!(bus.drain(), vec![on(0, 75), on(2, 75)]);
    assert_eq!(notes[0].state(), CollisionState::CollisionStart);
    assert_eq!(notes[1].state(), CollisionState::NoCollision);
    assert_eq!(notes[2].state(), CollisionState::CollisionStart);
    assert_eq!(notes[3].state(), CollisionState::NoCollision);
    check_for_collisions(&playheads, &mut notes, &mut bus);
    assert!(bus.is_empty());
    assert_eq!(notes[0].state(), CollisionState::CollisionContinue);
    check_for_collisions(&vec![playhead_in(0, 500)], &mut notes, &mut bus);
    assert_eq!(bus.drain(), vec![off(0), off(2), on(3, 75)]);
}

#[test]
fn collision_pass_appends_behind_pending_events() {
    let mut notes = vec![note_in(0, 0, 100)];
    let mut bus = EventBus::new();
    bus.emit(off(9));
    check_for_collisions(&vec![playhead_in(0, 100)], &mut notes, &mut bus);
    assert_eq!(bus.drain(), vec![off(9), on(0, 75)]);
}

#[test]
fn several_playheads_over_one_note_switch_it_on_once() {
    let mut notes = vec![note_in(0, 0, 100)];
    let mut bus = EventBus::new();
    let three = vec![playhead_in(0, 95), playhead_in(0, 100), playhead_in(0, 105)];
    check_for_collisions(&three, &mut notes, &mut bus);
    assert_eq!(bus.drain(), vec![on(0, 75)]);
    assert_eq!(notes[0].state(), CollisionState::CollisionStart);
    // Two leave, one stays: the note keeps sounding.
    let one = vec![playhead_in(0, 0), playhead_in(0, 100), playhead_in(0, 200)];
    check_for_collisions(&one, &mut notes, &mut bus);
    assert!(bus.is_empty());
    assert_eq!(notes[0].state(), CollisionState::CollisionContinue);
    // Another takes over in the same frame in which the first leaves.
    let other = vec![playhead_in(0, 105), playhead_in(0, 0), playhead_in(0, 200)];
    check_for_collisions(&other, &mut notes, &mut bus);
    assert!(bus.is_empty());
    assert_eq!(notes[0].state(), CollisionState::CollisionContinue);
    // The last one leaves: now the note is released, once.
    let none = vec![playhead_in(0, 0), playhead_in(0, 0), playhead_in(0, 200)];
    check_for_collisions(&none, &mut notes, &mut bus);
    assert_eq!(bus.drain(), vec![off(0)]);
    assert_eq!(notes[0].state(), CollisionState::CollisionEnd);
    check_for_collisions(&none, &mut notes, &mut bus);
    assert!(bus.is_empty());
    assert_eq!(notes[0].state(), CollisionState::NoCollision);
}

#[test]
fn playhead_of_another_lane_does_not_hold_a_note() {
    let mut notes = vec![note_in(0, 0, 100)];
    let mut bus = EventBus::new();
    check_for_collisions(&vec![playhead_in(0, 100), playhead_in(1, 100)], &mut notes, &mut bus);
    assert_eq!(bus.drain(), vec![on(0, 75)]);
    check_for_collisions(&vec![playhead_in(0, 0), playhead_in(1, 100)], &mut notes, &mut bus);
    assert_eq!(bus.drain(), vec![off(0)]);
}

#[test]
fn states_tell_what_the_last_pass_emitted() {
    let mut notes = vec![note_in(0, 0, 100), note_in(1, 0, 300), note_in(2, 0, 100)];
    let mut bus = EventBus::new();
    let mut told = EventBus::new();
    let frames = [100, 100, 300, 300, 0, 100, 300];
    for x in frames {
        check_for_collisions(&vec![playhead_in(0, x)], &mut notes, &mut bus);
        check_note_on(&notes, &mut told);
        assert_eq!(told.drain(), bus.drain());
    }
}

#[test]
fn check_note_on_reads_start_and_end() {
    let mut notes = vec![note_in(0, 0, 100), note_in(1, 0, 100), note_in(2, 0, 100), note_in(3, 0, 100)];
    notes[1].observe(true);
    notes[2].observe(true);
    notes[2].observe(true);
    notes[3].observe(true);
    notes[3].observe(false);
    let mut bus = EventBus::new();
    bus.emit(on(8, 1));
    check_note_on(&notes, &mut bus);
    assert_eq!(bus.drain(), vec![on(8, 1), on(1, 75), off(3)]);
}
