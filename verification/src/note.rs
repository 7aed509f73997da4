//! Note regions and the collision state machine that turns the overlap fact
//! of each frame into edge-triggered note-on / note-off signals.

use vstd::prelude::*;
use crate::event::{NoteEvent, NoteOffEvent, NoteOnEvent};
use crate::geometry::Bounds;
use crate::pitch::{map_to_midi_range, midi_pitch, MIDI_PITCH_MAX};
use crate::sequence::GlobalSequencerSettings;

verus! {

/// Where a note stands relative to the playheads of its lane.
///
/// `NoCollision` is the idle state, `CollisionStart` holds for the one frame
/// in which an overlap began, `CollisionContinue` while it lasts, and
/// `CollisionEnd` for the one frame in which it ended.
#[derive(Clone, Copy, Debug, PartialEq, Eq, Structural)]
pub enum CollisionState {
    NoCollision,
    CollisionStart,
    CollisionContinue,
    CollisionEnd,
}

/// What a transition of the state machine emits.
#[derive(Clone, Copy, Debug, PartialEq, Eq, Structural)]
pub enum Trigger {
    NoteOn,
    NoteOff,
}

/// Whether a note in `state` has been switched on and not yet off.
pub open spec fn sounding(state: CollisionState) -> bool {
    state is CollisionStart || state is CollisionContinue
}

/// The transition table: the state that follows `state` when the frame's
/// overlap fact is `overlap`.
pub open spec fn next_state(state: CollisionState, overlap: bool) -> CollisionState {
    match state {
        CollisionState::NoCollision => if overlap {
            CollisionState::CollisionStart
        } else {
            CollisionState::NoCollision
        },
        CollisionState::CollisionStart => if overlap {
            CollisionState::CollisionContinue
        } else {
            CollisionState::CollisionEnd
        },
        CollisionState::CollisionContinue => if overlap {
            CollisionState::CollisionContinue
        } else {
            CollisionState::CollisionEnd
        },
        CollisionState::CollisionEnd => if overlap {
            CollisionState::CollisionStart
        } else {
            CollisionState::NoCollision
        },
    }
}

/// What the transition out of `state` on `overlap` emits: a note-on when an
/// overlap begins, a note-off when one ends, nothing otherwise.
pub open spec fn emission(state: CollisionState, overlap: bool) -> Option<Trigger> {
    match state {
        CollisionState::NoCollision => if overlap {
            Some(Trigger::NoteOn)
        } else {
            None
        },
        CollisionState::CollisionStart => if overlap {
            None
        } else {
            Some(Trigger::NoteOff)
        },
        CollisionState::CollisionContinue => if overlap {
            None
        } else {
            Some(Trigger::NoteOff)
        },
        CollisionState::CollisionEnd => if overlap {
            Some(Trigger::NoteOn)
        } else {
            None
        },
    }
}

/// The state reached from `state` after one frame for each entry of
/// `overlaps`, in order.
pub open spec fn state_after(state: CollisionState, overlaps: Seq<bool>) -> CollisionState
    decreases overlaps.len(),
{
    if overlaps.len() == 0 {
        state
    } else {
        next_state(state_after(state, overlaps.drop_last()), overlaps.last())
    }
}

/// Everything emitted on the way from `state` through `overlaps`, in order.
pub open spec fn triggers_of(state: CollisionState, overlaps: Seq<bool>) -> Seq<Trigger>
    decreases overlaps.len(),
{
    if overlaps.len() == 0 {
        Seq::empty()
    } else {
        let earlier = triggers_of(state, overlaps.drop_last());
        match emission(state_after(state, overlaps.drop_last()), overlaps.last()) {
            Some(t) => earlier.push(t),
            None => earlier,
        }
    }
}

/// The other trigger.
pub open spec fn opposite(t: Trigger) -> Trigger {
    match t {
        Trigger::NoteOn => Trigger::NoteOff,
        Trigger::NoteOff => Trigger::NoteOn,
    }
}

/// The trigger that a note in `state` can emit next.
pub open spec fn due(state: CollisionState) -> Trigger {
    if sounding(state) {
        Trigger::NoteOff
    } else {
        Trigger::NoteOn
    }
}

/// What the state alone tells of the frame that led to it: a note-on was
/// emitted if an overlap has just begun, a note-off if one has just ended.
pub open spec fn edge_of(state: CollisionState) -> Option<Trigger> {
    match state {
        CollisionState::CollisionStart => Some(Trigger::NoteOn),
        CollisionState::CollisionEnd => Some(Trigger::NoteOff),
        _ => None,
    }
}

/// The state after a frame tells what that frame emitted.
pub proof fn lemma_state_tells_emission(state: CollisionState, overlap: bool)
    ensures
        edge_of(next_state(state, overlap)) == emission(state, overlap),
{
}

/// The machine is an edge detector: after a frame a note sounds exactly if
/// that frame saw an overlap, and something is emitted exactly if that
/// differs from before.
pub proof fn lemma_edge_detection(state: CollisionState, overlap: bool)
    ensures
        sounding(next_state(state, overlap)) == overlap,
        emission(state, overlap) is Some <==> sounding(state) != overlap,
        emission(state, overlap) is Some ==> emission(state, overlap) == Some(due(state)),
{
}

/// However long an overlap lasts, note-ons and note-offs alternate: the
/// first trigger is the one that is due in the starting state, and every
/// later one is the opposite of the one before. So between two consecutive
/// note-ons lies exactly one note-off, and no note-off comes without a
/// note-on before it that is still unanswered.
pub proof fn lemma_triggers_alternate(state: CollisionState, overlaps: Seq<bool>)
    ensures
        triggers_of(state, overlaps).len() <= overlaps.len(),
        triggers_of(state, overlaps).len() > 0 ==> triggers_of(state, overlaps)[0] == due(state),
        forall|i: int|
            0 <= i && i + 1 < triggers_of(state, overlaps).len() ==> #[trigger] triggers_of(
                state,
                overlaps,
            )[i + 1] == opposite(triggers_of(state, overlaps)[i]),
        triggers_of(state, overlaps).len() > 0 ==> due(state_after(state, overlaps)) == opposite(
            triggers_of(state, overlaps).last(),
        ),
        triggers_of(state, overlaps).len() == 0 ==> due(state_after(state, overlaps)) == due(state),
    decreases overlaps.len(),
{
    if overlaps.len() > 0 {
        lemma_triggers_alternate(state, overlaps.drop_last());
        lemma_edge_detection(state_after(state, overlaps.drop_last()), overlaps.last());
    }
}

/// Between two note-ons with no note-on between them lies exactly one
/// trigger, and it is a note-off.
pub proof fn lemma_one_off_between_ons(state: CollisionState, overlaps: Seq<bool>, first: int, second: int)
    requires
        0 <= first < second < triggers_of(state, overlaps).len(),
        triggers_of(state, overlaps)[first] == Trigger::NoteOn,
        triggers_of(state, overlaps)[second] == Trigger::NoteOn,
        forall|k: int| first < k < second ==> triggers_of(state, overlaps)[k] != Trigger::NoteOn,
    ensures
        second == first + 2,
        triggers_of(state, overlaps)[first + 1] == Trigger::NoteOff,
{
    lemma_triggers_alternate(state, overlaps);
    let t = triggers_of(state, overlaps);
    assert(t[first + 1] == opposite(t[first]));
    if second > first + 2 {
        assert(t[first + 1 + 1] == opposite(t[first + 1]));
    }
}

/// The collision state of one note. It changes only through [`Collider::observe`].
#[derive(Clone, Copy, Debug, PartialEq, Eq)]
pub struct Collider {
    state: CollisionState,
}

impl View for Collider {
    type V = CollisionState;

    closed spec fn view(&self) -> CollisionState {
        self.state
    }
}

impl Default for Collider {
    fn default() -> (collider: Self)
        ensures
            collider@ == CollisionState::NoCollision,
    {
        Collider { state: CollisionState::NoCollision }
    }
}

impl Collider {
    /// The current state.
    pub fn state(&self) -> (state: CollisionState)
        ensures
            state == self@,
    {
        self.state
    }

    /// Feeds one frame's overlap fact into the machine and returns what the
    /// transition emits.
    pub fn observe(&mut self, overlap: bool) -> (emitted: Option<Trigger>)
        ensures
            final(self)@ == next_state(old(self)@, overlap),
            emitted == emission(old(self)@, overlap),
    {
        let (next, emitted): (CollisionState, Option<Trigger>) = match self.state {
            CollisionState::NoCollision => if overlap {
                (CollisionState::CollisionStart, Some(Trigger::NoteOn))
            } else {
                (CollisionState::NoCollision, None)
            },
            CollisionState::CollisionStart => if overlap {
                (CollisionState::CollisionContinue, None)
            } else {
                (CollisionState::CollisionEnd, Some(Trigger::NoteOff))
            },
            CollisionState::CollisionContinue => if overlap {
                (CollisionState::CollisionContinue, None)
            } else {
                (CollisionState::CollisionEnd, Some(Trigger::NoteOff))
            },
            CollisionState::CollisionEnd => if overlap {
                (CollisionState::CollisionStart, Some(Trigger::NoteOn))
            } else {
                (CollisionState::NoCollision, None)
            },
        };
        self.state = next;
        emitted
    }
}

/// What is known of a note region: who it is, where it lies, what it sounds
/// and where its collision state machine stands.
pub struct NoteView {
    pub id: usize,
    pub lane: u32,
    pub bounds: Bounds,
    pub range: GlobalSequencerSettings,
    pub pitch: u8,
    pub state: CollisionState,
}

impl NoteView {
    /// The pitch is a MIDI pitch.
    pub open spec fn wf(self) -> bool {
        self.pitch <= MIDI_PITCH_MAX
    }

    /// The pitch that this note's height has in a field `field_height` high.
    pub open spec fn pitch_in(self, field_height: int) -> int {
        midi_pitch(
            self.bounds.center_y as int,
            0,
            field_height,
            self.range.pitch_min as int,
            self.range.pitch_max as int,
        )
    }

    /// The event that `t` stands for when this note emits it.
    pub open spec fn event_for(self, t: Trigger) -> NoteEvent {
        match t {
            Trigger::NoteOn => NoteEvent::On(NoteOnEvent { note: self.id, pitch: self.pitch }),
            Trigger::NoteOff => NoteEvent::Off(NoteOffEvent { note: self.id }),
        }
    }

    /// The events that one frame with overlap fact `overlap` draws from this
    /// note: none or one.
    pub open spec fn events_on(self, overlap: bool) -> Seq<NoteEvent> {
        match emission(self.state, overlap) {
            Some(t) => seq![self.event_for(t)],
            None => Seq::empty(),
        }
    }

    /// The event of the frame that led to this note's state: none or one.
    pub open spec fn edge_events(self) -> Seq<NoteEvent> {
        match edge_of(self.state) {
            Some(t) => seq![self.event_for(t)],
            None => Seq::empty(),
        }
    }

    /// This note after one frame with overlap fact `overlap`: only the
    /// collision state moves.
    pub open spec fn observed(self, overlap: bool) -> NoteView {
        NoteView { state: next_state(self.state, overlap), ..self }
    }

    /// This note moved to a new centre in a field `field_height` high: the
    /// pitch follows the height, the collision state stays.
    pub open spec fn relocated(self, center_x: i64, center_y: i64, field_height: int) -> NoteView {
        let moved = NoteView { bounds: Bounds { center_x, center_y, ..self.bounds }, ..self };
        NoteView { pitch: moved.pitch_in(field_height) as u8, ..moved }
    }

    /// This note with its pitch taken anew from its height.
    pub open spec fn retuned(self, field_height: int) -> NoteView {
        NoteView { pitch: self.pitch_in(field_height) as u8, ..self }
    }
}

/// An idle note with the given identity, lane, extent and pitch range, whose
/// pitch is the one that its height has in a field `field_height` high.
pub open spec fn fresh_note(
    id: usize,
    lane: u32,
    bounds: Bounds,
    range: GlobalSequencerSettings,
    field_height: int,
) -> NoteView {
    NoteView { id, lane, bounds, range, pitch: 0, state: CollisionState::NoCollision }.retuned(field_height)
}

/// A stationary rectangular trigger zone mapped to a MIDI pitch.
#[derive(Clone, Copy, Debug)]
pub struct Note {
    id: usize,
    lane: u32,
    bounds: Bounds,
    range: GlobalSequencerSettings,
    pitch: u8,
    collider: Collider,
}

impl View for Note {
    type V = NoteView;

    closed spec fn view(&self) -> NoteView {
        NoteView {
            id: self.id,
            lane: self.lane,
            bounds: self.bounds,
            range: self.range,
            pitch: self.pitch,
            state: self.collider@,
        }
    }
}

impl Note {
    /// An idle note with the given identity, lane, extent and pitch range,
    /// in a field `field_height` high. Its pitch is taken from its height.
    pub fn new(id: usize, lane: u32, bounds: Bounds, range: GlobalSequencerSettings, field_height: i64) -> (note:
        Self)
        ensures
            note@ == fresh_note(id, lane, bounds, range, field_height as int),
            note@.wf(),
    {
        let pitch: u8 = map_to_midi_range(bounds.center_y, 0, field_height, range.pitch_min, range.pitch_max);
        Note { id, lane, bounds, range, pitch, collider: Collider::default() }
    }

    /// The note's identity.
    pub fn id(&self) -> (id: usize)
        ensures
            id == self@.id,
    {
        self.id
    }

    /// The lane that the note lies in.
    pub fn lane(&self) -> (lane: u32)
        ensures
            lane == self@.lane,
    {
        self.lane
    }

    /// The rectangle that the note covers.
    pub fn bounds(&self) -> (bounds: Bounds)
        ensures
            bounds == self@.bounds,
    {
        self.bounds
    }

    /// The pitch range that the note's height is mapped into.
    pub fn range(&self) -> (range: GlobalSequencerSettings)
        ensures
            range == self@.range,
    {
        self.range
    }

    /// The note's pitch.
    pub fn pitch(&self) -> (pitch: u8)
        ensures
            pitch == self@.pitch,
    {
        self.pitch
    }

    /// The note's collision state.
    pub fn state(&self) -> (state: CollisionState)
        ensures
            state == self@.state,
    {
        self.collider.state()
    }

    /// Moves the note's centre and takes its pitch anew from the new height.
    /// The collision state is left for the next frame to settle.
    pub fn relocate(&mut self, center_x: i64, center_y: i64, field_height: i64)
        ensures
            final(self)@ == old(self)@.relocated(center_x, center_y, field_height as int),
            final(self)@.wf(),
    {
        let pitch: u8 = map_to_midi_range(center_y, 0, field_height, self.range.pitch_min, self.range.pitch_max);
        self.bounds.center_x = center_x;
        self.bounds.center_y = center_y;
        self.pitch = pitch;
    }

    /// Takes the note's pitch anew from its height, for a field
    /// `field_height` high.
    pub fn retune(&mut self, field_height: i64)
        ensures
            final(self)@ == old(self)@.retuned(field_height as int),
            final(self)@.wf(),
    {
        let pitch: u8 = map_to_midi_range(
            self.bounds.center_y,
            0,
            field_height,
            self.range.pitch_min,
            self.range.pitch_max,
        );
        self.pitch = pitch;
    }

    /// The event of the frame that led to the note's present state, if that
    /// frame emitted one.
    pub fn edge_event(&self) -> (event: Option<NoteEvent>)
        ensures
            match event {
                Some(e) => self@.edge_events() == seq![e],
                None => self@.edge_events() == Seq::<NoteEvent>::empty(),
            },
    {
        match self.collider.state() {
            CollisionState::CollisionStart => Some(NoteEvent::On(NoteOnEvent { note: self.id, pitch: self.pitch })),
            CollisionState::CollisionEnd => Some(NoteEvent::Off(NoteOffEvent { note: self.id })),
            _ => None,
        }
    }

    /// Feeds one frame's overlap fact into the note's state machine and
    /// returns the event that the transition emits, if any.
    pub fn observe(&mut self, overlap: bool) -> (event: Option<NoteEvent>)
        ensures
            final(self)@ == old(self)@.observed(overlap),
            match event {
                Some(e) => old(self)@.events_on(overlap) == seq![e],
                None => old(self)@.events_on(overlap) == Seq::<NoteEvent>::empty(),
            },
    {
        match self.collider.observe(overlap) {
            Some(Trigger::NoteOn) => Some(NoteEvent::On(NoteOnEvent { note: self.id, pitch: self.pitch })),
            Some(Trigger::NoteOff) => Some(NoteEvent::Off(NoteOffEvent { note: self.id })),
            None => None,
        }
    }
}

/// The views of a sequence of notes.
pub open spec fn note_views(notes: Seq<Note>) -> Seq<NoteView> {
    notes.map_values(|n: Note| n@)
}

/// Every note with its pitch taken anew from its height.
pub open spec fn retuned_notes(notes: Seq<NoteView>, field_height: int) -> Seq<NoteView> {
    notes.map_values(|n: NoteView| n.retuned(field_height))
}

/// Takes the pitch of every note anew from its height, for a field
/// `field_height` high.
pub fn note_pitch(notes: &mut Vec<Note>, field_height: i64)
    ensures
        note_views(final(notes)@) == retuned_notes(note_views(old(notes)@), field_height as int),
        forall|i: int| 0 <= i < final(notes)@.len() ==> (#[trigger] final(notes)@[i])@.wf(),
{
    let ghost before = notes@;
    let mut i: usize = 0;
    while i < notes.len()
        invariant
            i <= notes@.len(),
            notes@.len() == before.len(),
            forall|k: int| 0 <= k < i ==> (#[trigger] notes@[k])@ == before[k]@.retuned(field_height as int),
            forall|k: int| 0 <= k < i ==> (#[trigger] notes@[k])@.wf(),
            forall|k: int| i <= k < before.len() ==> notes@[k] == before[k],
        decreases notes@.len() - i,
    {
        let mut note: Note = notes[i];
        note.retune(field_height);
        notes.set(i, note);
        i += 1;
    }
    assert(note_views(notes@) =~= retuned_notes(note_views(before), field_height as int));
}

} // verus!
