//! What the sequencer says to a MIDI output: the channel-voice messages for
//! its events, and the decision when to connect.

use vstd::prelude::*;
use crate::event::NoteEvent;
use crate::note::{note_views, Note, NoteView};

verus! {

/// The status byte of a note-on message on channel 1.
pub const NOTE_ON_STATUS: u8 = 0x90;

/// The velocity that notes are switched on with.
pub const FULL_VELOCITY: u8 = 127;

/// The velocity that switches a note off.
pub const SILENT_VELOCITY: u8 = 0;

/// The three bytes that switch `pitch` on.
pub open spec fn note_on_bytes(pitch: u8) -> Seq<u8> {
    seq![NOTE_ON_STATUS, pitch, FULL_VELOCITY]
}

/// The three bytes that switch `pitch` off: a note-on with no velocity.
pub open spec fn note_off_bytes(pitch: u8) -> Seq<u8> {
    seq![NOTE_ON_STATUS, pitch, SILENT_VELOCITY]
}

/// The messages for the note-ons among `events`, in order. Each carries the
/// pitch that the note had when it was triggered. An event for a note that
/// is not among `notes` gives no message.
pub open spec fn note_on_messages(notes: Seq<NoteView>, events: Seq<NoteEvent>) -> Seq<Seq<u8>>
    decreases events.len(),
{
    if events.len() == 0 {
        Seq::empty()
    } else {
        let earlier = note_on_messages(notes, events.drop_last());
        match events.last() {
            NoteEvent::On(on) => if on.note < notes.len() {
                earlier.push(note_on_bytes(on.pitch))
            } else {
                earlier
            },
            NoteEvent::Off(_) => earlier,
        }
    }
}

/// The messages for the note-offs among `events`, in order. Each carries the
/// pitch that the note has now. An event for a note that is not among
/// `notes` gives no message.
pub open spec fn note_off_messages(notes: Seq<NoteView>, events: Seq<NoteEvent>) -> Seq<Seq<u8>>
    decreases events.len(),
{
    if events.len() == 0 {
        Seq::empty()
    } else {
        let earlier = note_off_messages(notes, events.drop_last());
        match events.last() {
            NoteEvent::Off(off) => if off.note < notes.len() {
                earlier.push(note_off_bytes(notes[off.note as int].pitch))
            } else {
                earlier
            },
            NoteEvent::On(_) => earlier,
        }
    }
}

/// The byte sequences of a list of messages.
pub open spec fn message_bytes(messages: Seq<[u8; 3]>) -> Seq<Seq<u8>> {
    messages.map_values(|m: [u8; 3]| m@)
}

/// The message that switches `pitch` on at full velocity.
pub fn note_on_message(pitch: u8) -> (message: [u8; 3])
    ensures
        message@ == note_on_bytes(pitch),
{
    let message: [u8; 3] = [NOTE_ON_STATUS, pitch, FULL_VELOCITY];
    assert(message@ =~= note_on_bytes(pitch));
    message
}

/// The message that switches `pitch` off.
pub fn note_off_message(pitch: u8) -> (message: [u8; 3])
    ensures
        message@ == note_off_bytes(pitch),
{
    let message: [u8; 3] = [NOTE_ON_STATUS, pitch, SILENT_VELOCITY];
    assert(message@ =~= note_off_bytes(pitch));
    message
}

/// The messages to send for the note-ons among `events`, in order.
pub fn midi_out_note_on(notes: &Vec<Note>, events: &Vec<NoteEvent>) -> (messages: Vec<[u8; 3]>)
    ensures
        message_bytes(messages@) == note_on_messages(note_views(notes@), events@),
{
    let mut messages: Vec<[u8; 3]> = Vec::new();
    let mut i: usize = 0;
    proof {
        assert(message_bytes(messages@) =~= note_on_messages(note_views(notes@), events@.take(0)));
    }
    while i < events.len()
        invariant
            i <= events@.len(),
            message_bytes(messages@) == note_on_messages(note_views(notes@), events@.take(i as int)),
        decreases events@.len() - i,
    {
        let ghost sent = messages@;
        if let NoteEvent::On(on) = events[i] {
            if on.note < notes.len() {
                messages.push(note_on_message(on.pitch));
            }
        }
        proof {
            assert(events@.take(i as int + 1).drop_last() =~= events@.take(i as int));
            assert(message_bytes(messages@) =~= note_on_messages(note_views(notes@), events@.take(i as int + 1)));
        }
        i += 1;
    }
    proof {
        assert(events@.take(i as int) =~= events@);
    }
    messages
}

/// The messages to send for the note-offs among `events`, in order.
pub fn midi_out_note_off(notes: &Vec<Note>, events: &Vec<NoteEvent>) -> (messages: Vec<[u8; 3]>)
    ensures
        message_bytes(messages@) == note_off_messages(note_views(notes@), events@),
{
    let mut messages: Vec<[u8; 3]> = Vec::new();
    let mut i: usize = 0;
    proof {
        assert(message_bytes(messages@) =~= note_off_messages(note_views(notes@), events@.take(0)));
    }
    while i < events.len()
        invariant
            i <= events@.len(),
            message_bytes(messages@) == note_off_messages(note_views(notes@), events@.take(i as int)),
        decreases events@.len() - i,
    {
        if let NoteEvent::Off(off) = events[i] {
            if off.note < notes.len() {
                messages.push(note_off_message(notes[off.note].pitch()));
            }
        }
        proof {
            assert(events@.take(i as int + 1).drop_last() =~= events@.take(i as int));
            assert(message_bytes(messages@) =~= note_off_messages(note_views(notes@), events@.take(i as int + 1)));
        }
        i += 1;
    }
    proof {
        assert(events@.take(i as int) =~= events@);
    }
    messages
}

/// Whether the sequencer has connected to an output port.
#[derive(Clone, Copy, Debug, PartialEq, Eq, Structural)]
pub struct MidiSettings {
    pub connected: bool,
}

impl Default for MidiSettings {
    fn default() -> (settings: Self)
        ensures
            !settings.connected,
    {
        MidiSettings { connected: false }
    }
}

/// The port to connect to now, given how many ports the output offers: the
/// first one, once, as soon as there is one.
pub open spec fn port_to_connect(settings: MidiSettings, ports: usize) -> Option<usize> {
    if !settings.connected && ports > 0 {
        Some(0)
    } else {
        None
    }
}

/// Decides whether to connect, and to which port. Once a port has been
/// chosen the settings say so, and no port is chosen again.
pub fn connect(settings: &mut MidiSettings, ports: usize) -> (port: Option<usize>)
    ensures
        port == port_to_connect(*old(settings), ports),
        final(settings).connected == (old(settings).connected || ports > 0),
{
    if settings.connected {
        return None;
    }
    if ports > 0 {
        settings.connected = true;
        Some(0)
    } else {
        None
    }
}

} // verus!
