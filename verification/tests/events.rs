use sequencer::event::{EventBus, NoteEvent, NoteOffEvent, NoteOnEvent};
use sequencer::midi::{
    connect, midi_out_note_off, midi_out_note_on, note_off_message, note_on_message, MidiSettings, FULL_VELOCITY,
    NOTE_ON_STATUS, SILENT_VELOCITY,
};
use sequencer::geometry::Bounds;
use sequencer::note::Note;
use sequencer::sequence::GlobalSequencerSettings;

fn on(note: usize, pitch: u8) -> NoteEvent {
    NoteEvent::On(NoteOnEvent { note, pitch })
}

fn off(note: usize) -> NoteEvent {
    NoteEvent::Off(NoteOffEvent { note })
}

fn note_at_height(id: usize, y: i64) -> Note {
    let bounds = Bounds { center_x: 0, center_y: y, half_width: 1, half_height: 1 };
    Note::new(id, 0, bounds, GlobalSequencerSettings::default(), 100)
}

#[test]
fn new_bus_is_empty() {
    let mut bus = EventBus::new();
    assert!(bus.is_empty());
    assert_eq!(bus.len(), 0);
    assert_eq!(bus.drain(), Vec::new());
}

#[test]
fn drain_delivers_in_emission_order() {
    let mut bus = EventBus::new();
    bus.emit(on(2, 60));
    bus.emit(off(2));
    bus.emit(on(1, 61));
    bus.emit(on(2, 60));
    assert_eq!(bus.len(), 4);
    assert!(!bus.is_empty());
    assert_eq!(bus.drain(), vec![on(2, 60), off(2), on(1, 61), on(2, 60)]);
}

#[test]
fn second_drain_is_empty() {
    let mut bus = EventBus::new();
    bus.emit(on(0, 60));
    bus.emit(off(0));
    assert_eq!(bus.drain().len(), 2);
    assert_eq!(bus.drain(), Vec::new());
    assert_eq!(bus.drain(), Vec::new());
    assert!(bus.is_empty());
}

#[test]
fn bus_can_be_used_again_after_a_drain() {
    let mut bus = EventBus::new();
    bus.emit(on(0, 60));
    assert_eq!(bus.drain(), vec![on(0, 60)]);
    bus.emit(off(0));
    assert_eq!(bus.drain(), vec![off(0)]);
}

#[test]
fn equal_events_are_not_merged() {
    let mut bus = EventBus::new();
    bus.emit(on(0, 60));
    bus.emit(on(0, 60));
    assert_eq!(bus.drain(), vec![on(0, 60), on(0, 60)]);
}

#[test]
fn note_messages_have_three_bytes() {
    assert_eq!(note_on_message(60), [0x90, 60, 127]);
    assert_eq!(note_off_message(60), [0x90, 60, 0]);
    assert_eq!(note_on_message(0), [0b1001_0000, 0, 127]);
    assert_eq!(note_off_message(127), [0b1001_0000, 127, 0]);
    assert_eq!(NOTE_ON_STATUS, 0x90);
    assert_eq!(FULL_VELOCITY, 127);
    assert_eq!(SILENT_VELOCITY, 0);
}

#[test]
fn note_on_messages_follow_the_events() {
    let notes = vec![note_at_height(0, 0), note_at_height(1, 100)];
    let events = vec![on(1, 110), off(0), on(0, 40), on(7, 99), off(1)];
    assert_eq!(midi_out_note_on(&notes, &events), vec![[0x90, 110, 127], [0x90, 40, 127]]);
    assert_eq!(midi_out_note_on(&notes, &Vec::new()), Vec::<[u8; 3]>::new());
}

#[test]
fn note_off_messages_follow_the_events() {
    let notes = vec![note_at_height(0, 0), note_at_height(1, 100)];
    let events = vec![on(1, 110), off(0), on(0, 40), off(7), off(1)];
    assert_eq!(midi_out_note_off(&notes, &events), vec![[0x90, 40, 0], [0x90, 110, 0]]);
    assert_eq!(midi_out_note_off(&Vec::new(), &events), Vec::<[u8; 3]>::new());
}

#[test]
fn connects_once_to_the_first_port() {
    let mut settings = MidiSettings::default();
    assert!(!settings.connected);
    assert_eq!(connect(&mut settings, 0), None);
    assert!(!settings.connected);
    assert_eq!(connect(&mut settings, 3), Some(0));
    assert!(settings.connected);
    assert_eq!(connect(&mut settings, 3), None);
    assert_eq!(connect(&mut settings, 0), None);
    assert!(settings.connected);
}
