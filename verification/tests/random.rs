use sequencer::geometry::Bounds;
use sequencer::note::CollisionState;
use sequencer::playhead::PlayheadDirection;
use sequencer::random::scale_fraction;
use sequencer::sequence::GlobalSequencerSettings;
use sequencer::world::{
    spawn_random_notes, spawn_random_playheads, World, NOTE_HALF_HEIGHT, NOTE_HALF_WIDTH,
    NUMBER_OF_RANDOM_NOTES, NUMBER_OF_RANDOM_PLAYHEADS, PLAYHEAD_HALF_WIDTH, RANDOM_SPEED_MAX, RANDOM_SPEED_MIN,
};

fn world() -> World {
    match World::new(800_000_000, 600_000_000) {
        Ok(w) => w,
        Err(_) => panic!("a field with a size must be accepted"),
    }
}

#[test]
fn fraction_of_an_extent_is_rounded_down() {
    assert_eq!(scale_fraction(0, 200), 0);
    assert_eq!(scale_fraction(0x8000_0000, 200), 100);
    assert_eq!(scale_fraction(0x4000_0000, 200), 50);
    assert_eq!(scale_fraction(u32::MAX, 200), 199);
    assert_eq!(scale_fraction(0x8000_0000, 3), 1);
    assert_eq!(scale_fraction(u32::MAX, 1), 0);
    assert_eq!(scale_fraction(u32::MAX, 0), 0);
    assert_eq!(scale_fraction(u32::MAX, u64::MAX), u64::MAX - 0x1_0000_0000);
    assert_eq!(scale_fraction(1, 0x1_0000_0000), 1);
}

#[test]
fn random_session_has_one_playhead_in_each_lane() {
    assert_eq!(NUMBER_OF_RANDOM_PLAYHEADS, 3);
    assert_eq!(RANDOM_SPEED_MIN, 100);
    assert_eq!(RANDOM_SPEED_MAX, 300);
    let mut w = world();
    spawn_random_playheads(&mut w);
    assert_eq!(w.playheads().len(), 3);
    for (lane, p) in w.playheads().iter().enumerate() {
        assert_eq!(p.id(), lane);
        assert_eq!(p.lane(), lane as u32);
        assert!(p.speed() >= 100 && p.speed() <= 300);
        assert_eq!(p.position(), 0);
        assert_eq!(p.direction(), PlayheadDirection::Right);
        assert_eq!(p.current_direction(), PlayheadDirection::Right);
        assert_eq!(
            p.bounds(),
            Bounds { center_x: 0, center_y: 300_000_000, half_width: PLAYHEAD_HALF_WIDTH, half_height: 300_000_000 }
        );
    }
    assert!(w.notes().is_empty());
}

#[test]
fn random_playheads_come_after_those_that_are_there() {
    let mut w = world();
    assert_eq!(w.spawn_playhead(7, 1, PlayheadDirection::Left), Ok(0));
    spawn_random_playheads(&mut w);
    assert_eq!(w.playheads().len(), 4);
    assert_eq!(w.playheads()[0].lane(), 7);
    assert_eq!(w.playheads()[0].speed(), 1);
    for k in 0..3usize {
        assert_eq!(w.playheads()[1 + k].id(), 1 + k);
        assert_eq!(w.playheads()[1 + k].lane(), k as u32);
    }
}

#[test]
fn random_speeds_vary() {
    let mut w = world();
    for _ in 0..40 {
        spawn_random_playheads(&mut w);
    }
    let speeds: Vec<u32> = w.playheads().iter().map(|p| p.speed()).collect();
    assert_eq!(speeds.len(), 120);
    assert!(speeds.iter().all(|s| *s >= 100 && *s <= 300));
    assert!(speeds.iter().any(|s| *s != speeds[0]));
    assert!(speeds.iter().any(|s| *s != 100));
}

#[test]
fn random_session_has_the_same_notes_in_each_lane() {
    assert_eq!(NUMBER_OF_RANDOM_NOTES, 3);
    let mut w = world();
    spawn_random_notes(&mut w, GlobalSequencerSettings::default());
    assert_eq!(w.notes().len(), 9);
    for lane in 0..3usize {
        for k in 0..3usize {
            let n = &w.notes()[3 * lane + k];
            let first = &w.notes()[k];
            assert_eq!(n.id(), 3 * lane + k);
            assert_eq!(n.lane(), lane as u32);
            assert_eq!(n.bounds(), first.bounds());
            assert_eq!(n.pitch(), first.pitch());
            assert_eq!(n.bounds().half_width, NOTE_HALF_WIDTH);
            assert_eq!(n.bounds().half_height, NOTE_HALF_HEIGHT);
            assert!(n.bounds().center_x >= 0 && n.bounds().center_x < 800_000_000);
            assert!(n.bounds().center_y >= 0 && n.bounds().center_y < 600_000_000);
            assert_eq!(n.range(), GlobalSequencerSettings::default());
            assert!(n.pitch() >= 40 && n.pitch() <= 110);
            assert_eq!(n.state(), CollisionState::NoCollision);
        }
    }
    assert!(w.playheads().is_empty());
}

#[test]
fn random_places_vary() {
    let mut w = world();
    for _ in 0..20 {
        spawn_random_notes(&mut w, GlobalSequencerSettings::default());
    }
    assert_eq!(w.notes().len(), 180);
    let first = w.notes()[0].bounds();
    assert!(w.notes().iter().any(|n| n.bounds().center_x != first.center_x));
    assert!(w.notes().iter().any(|n| n.bounds().center_y != first.center_y));
    assert!(w.notes().iter().any(|n| n.bounds().center_x != 0));
    assert!(w.notes().iter().any(|n| n.bounds().center_y != 0));
}

#[test]
fn random_notes_take_the_range_they_are_given() {
    let range = GlobalSequencerSettings { pitch_min: 60, pitch_max: 60 };
    let mut w = world();
    spawn_random_notes(&mut w, range);
    for n in w.notes() {
        assert_eq!(n.range(), range);
        assert_eq!(n.pitch(), 60);
    }
}

#[test]
fn random_notes_in_a_field_without_width_stand_at_its_edge() {
    let mut w = match World::new(0, 600_000_000) {
        Ok(w) => w,
        Err(_) => panic!("a field with a height must be accepted"),
    };
    spawn_random_notes(&mut w, GlobalSequencerSettings::default());
    assert_eq!(w.notes().len(), 9);
    for n in w.notes() {
        assert_eq!(n.bounds().center_x, 0);
    }
}
