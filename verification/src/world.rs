//! The world: every playhead and every note of a session, and the frame
//! step that moves the one and triggers the other.

use vstd::prelude::*;
use crate::event::{EventBus, NoteEvent};
use crate::geometry::Bounds;
use crate::note::{
    emission,
    fresh_note,
    note_pitch,
    note_views,
    retuned_notes,
    state_after,
    CollisionState,
    Note,
    NoteView,
};
use crate::playhead::{
    check_for_collisions,
    frame_events,
    frame_notes,
    initial_heading,
    lemma_lane_isolation,
    lemma_turns_only_on_crossing,
    playhead_movement,
    playhead_views,
    struck,
    Playhead,
    PlayheadDirection,
    PlayheadView,
};
use crate::random::{random_bits, random_in_range, scale_fraction};
use crate::sequence::{ConfigError, GlobalSequencerSettings};

verus! {

/// Half the width of a playhead's bar, in sub-units: two and a half units.
pub const PLAYHEAD_HALF_WIDTH: u64 = 2_500_000;

/// Half the width of a randomly placed note, in sub-units: sixty units.
pub const NOTE_HALF_WIDTH: u64 = 60_000_000;

/// Half the height of a randomly placed note, in sub-units: ten units.
pub const NOTE_HALF_HEIGHT: u64 = 10_000_000;

/// How many playheads, and lanes, a random session has.
pub const NUMBER_OF_RANDOM_PLAYHEADS: u32 = 3;

/// How many notes each lane of a random session has.
pub const NUMBER_OF_RANDOM_NOTES: usize = 3;

/// The slowest speed of a random playhead, in units per second.
pub const RANDOM_SPEED_MIN: i32 = 100;

/// The fastest speed of a random playhead, in units per second.
pub const RANDOM_SPEED_MAX: i32 = 300;

/// Why a field of the given size is refused, if it is.
pub open spec fn field_error(field_width: i64, field_height: i64) -> Option<ConfigError> {
    if field_height == 0 {
        Some(ConfigError::ZeroHeight)
    } else if field_width < 0 || field_height < 0 {
        Some(ConfigError::NegativeExtent)
    } else {
        None
    }
}

/// The bar of a new playhead: it stands at the left edge and covers the
/// field from bottom to top.
pub open spec fn playhead_bar(field_height: i64) -> Bounds {
    Bounds {
        center_x: 0,
        center_y: (field_height / 2) as i64,
        half_width: PLAYHEAD_HALF_WIDTH,
        half_height: (field_height - field_height / 2) as u64,
    }
}

/// The rectangle of a randomly placed note with its centre at `center`.
pub open spec fn note_box(center: (i64, i64)) -> Bounds {
    Bounds { center_x: center.0, center_y: center.1, half_width: NOTE_HALF_WIDTH, half_height: NOTE_HALF_HEIGHT }
}

/// What is known of a world.
pub struct WorldView {
    pub playheads: Seq<PlayheadView>,
    pub notes: Seq<NoteView>,
    pub field_width: i64,
    pub field_height: i64,
}

impl WorldView {
    /// The field has a size, everything is found under its own identity,
    /// every playhead is well formed, and every note sounds the pitch of its
    /// height.
    pub open spec fn wf(self) -> bool {
        &&& field_error(self.field_width, self.field_height) is None
        &&& forall|i: int|
            0 <= i < self.playheads.len() ==> (#[trigger] self.playheads[i]).id == i && self.playheads[i].wf()
        &&& forall|j: int|
            0 <= j < self.notes.len() ==> (#[trigger] self.notes[j]).id == j && self.notes[j].wf()
                && self.notes[j].pitch == self.notes[j].pitch_in(self.field_height as int)
    }

    /// The world with one more playhead, at the left edge of its lane.
    pub open spec fn with_playhead(self, lane: u32, speed: u32, direction: PlayheadDirection) -> WorldView {
        WorldView {
            playheads: self.playheads.push(
                PlayheadView {
                    id: self.playheads.len() as usize,
                    lane,
                    bounds: playhead_bar(self.field_height),
                    speed,
                    direction,
                    current_direction: initial_heading(direction),
                },
            ),
            ..self
        }
    }

    /// The world with one more note, idle, its pitch taken from its height.
    pub open spec fn with_note(self, lane: u32, bounds: Bounds, range: GlobalSequencerSettings) -> WorldView {
        WorldView {
            notes: self.notes.push(
                fresh_note(self.notes.len() as usize, lane, bounds, range, self.field_height as int),
            ),
            ..self
        }
    }

    /// The world with one note of the default size in `lane` at each of
    /// `centers`, in order, each with the pitch range `range`.
    pub open spec fn with_lane_of_notes(
        self,
        lane: u32,
        centers: Seq<(i64, i64)>,
        range: GlobalSequencerSettings,
    ) -> WorldView
        decreases centers.len(),
    {
        if centers.len() == 0 {
            self
        } else {
            self.with_lane_of_notes(lane, centers.drop_last(), range).with_note(
                lane,
                note_box(centers.last()),
                range,
            )
        }
    }

    /// The world with the same notes at `centers` in each of the lanes
    /// `0..lanes`, lane by lane.
    pub open spec fn with_notes_at(
        self,
        centers: Seq<(i64, i64)>,
        lanes: nat,
        range: GlobalSequencerSettings,
    ) -> WorldView
        decreases lanes,
    {
        if lanes == 0 {
            self
        } else {
            self.with_notes_at(centers, (lanes - 1) as nat, range).with_lane_of_notes(
                (lanes - 1) as u32,
                centers,
                range,
            )
        }
    }

    /// The world with note `id` moved to `center`. An identity that no note
    /// has moves nothing.
    pub open spec fn with_note_moved(self, id: usize, center: (i64, i64)) -> WorldView {
        if id < self.notes.len() {
            WorldView {
                notes: self.notes.update(
                    id as int,
                    self.notes[id as int].relocated(center.0, center.1, self.field_height as int),
                ),
                ..self
            }
        } else {
            self
        }
    }

    /// The world in a field of another size: every pitch follows.
    pub open spec fn resized(self, field_width: i64, field_height: i64) -> WorldView {
        WorldView {
            notes: retuned_notes(self.notes, field_height as int),
            field_width,
            field_height,
            ..self
        }
    }

    /// The playheads after `elapsed_micros` microseconds of motion.
    pub open spec fn moved(self, elapsed_micros: int) -> Seq<PlayheadView> {
        self.playheads.map_values(|p: PlayheadView| p.advanced(elapsed_micros, self.field_width as int))
    }

    /// The world after one frame: the playheads move, then every note is
    /// held against the playheads where they now stand.
    pub open spec fn advanced(self, elapsed_micros: int) -> WorldView {
        WorldView {
            playheads: self.moved(elapsed_micros),
            notes: frame_notes(self.moved(elapsed_micros), self.notes),
            ..self
        }
    }

    /// The events of that frame, note by note.
    pub open spec fn events_of(self, elapsed_micros: int) -> Seq<NoteEvent> {
        frame_events(self.moved(elapsed_micros), self.notes)
    }

    /// The world after one frame for each entry of `frames`, in order.
    pub open spec fn after_frames(self, frames: Seq<int>) -> WorldView
        decreases frames.len(),
    {
        if frames.len() == 0 {
            self
        } else {
            self.after_frames(frames.drop_last()).advanced(frames.last())
        }
    }

    /// The overlap facts that note `note` meets in `frames`, one for each
    /// frame.
    pub open spec fn overlaps_seen(self, frames: Seq<int>, note: int) -> Seq<bool>
        decreases frames.len(),
    {
        if frames.len() == 0 {
            Seq::empty()
        } else {
            let before = self.after_frames(frames.drop_last());
            self.overlaps_seen(frames.drop_last(), note).push(
                struck(before.moved(frames.last()), before.notes[note]),
            )
        }
    }

    /// Whether `center` lies in the field.
    pub open spec fn holds(self, center: (i64, i64)) -> bool {
        &&& 0 <= center.0 <= self.field_width
        &&& 0 <= center.1 < self.field_height
        &&& self.field_width > 0 ==> center.0 < self.field_width
    }
}

/// A frame keeps a well-formed world well formed.
pub proof fn lemma_frame_keeps_wf(w: WorldView, elapsed_micros: int)
    requires
        w.wf(),
    ensures
        w.advanced(elapsed_micros).wf(),
{
    let after = w.advanced(elapsed_micros);
    assert forall|i: int| 0 <= i < after.playheads.len() implies (#[trigger] after.playheads[i]).id == i
        && after.playheads[i].wf() by {
        lemma_turns_only_on_crossing(w.playheads[i], elapsed_micros, w.field_width as int);
    }
}

/// Over any run of frames a note does nothing but follow its state machine
/// through the overlap facts that it meets, and what a frame draws from it is
/// what the machine emits on that frame's fact. So the note-ons and
/// note-offs of every note alternate, whatever the playheads do and however
/// long the frames are.
pub proof fn lemma_note_follows_its_overlaps(w: WorldView, frames: Seq<int>, note: int)
    requires
        0 <= note < w.notes.len(),
    ensures
        w.after_frames(frames).notes.len() == w.notes.len(),
        w.overlaps_seen(frames, note).len() == frames.len(),
        w.after_frames(frames).notes[note] == (NoteView {
            state: state_after(w.notes[note].state, w.overlaps_seen(frames, note)),
            ..w.notes[note]
        }),
        frames.len() > 0 ==> w.after_frames(frames.drop_last()).notes[note].events_on(
            w.overlaps_seen(frames, note).last(),
        ) == match emission(
            state_after(w.notes[note].state, w.overlaps_seen(frames.drop_last(), note)),
            w.overlaps_seen(frames, note).last(),
        ) {
            Some(t) => seq![w.notes[note].event_for(t)],
            None => Seq::empty(),
        },
    decreases frames.len(),
{
    if frames.len() > 0 {
        lemma_note_follows_its_overlaps(w, frames.drop_last(), note);
        assert(w.overlaps_seen(frames, note).drop_last() =~= w.overlaps_seen(frames.drop_last(), note));
    }
}

/// Lanes do not mix, frame after frame. In a world where no playhead shares
/// a lane with any note and every note is idle, no run of frames draws an
/// event from any note or moves any note out of its idle state, wherever
/// the playheads travel.
pub proof fn lemma_separate_lanes_stay_silent(w: WorldView, frames: Seq<int>)
    requires
        forall|i: int, j: int|
            0 <= i < w.playheads.len() && 0 <= j < w.notes.len() ==> (#[trigger] w.playheads[i]).lane != (
            #[trigger] w.notes[j]).lane,
        forall|j: int| 0 <= j < w.notes.len() ==> (#[trigger] w.notes[j]).state == CollisionState::NoCollision,
    ensures
        w.after_frames(frames).notes == w.notes,
        w.after_frames(frames).playheads.len() == w.playheads.len(),
        forall|i: int|
            0 <= i < w.playheads.len() ==> (#[trigger] w.after_frames(frames).playheads[i]).lane
                == w.playheads[i].lane,
        frames.len() > 0 ==> w.after_frames(frames.drop_last()).events_of(frames.last()) == Seq::<
            NoteEvent,
        >::empty(),
    decreases frames.len(),
{
    if frames.len() > 0 {
        let before = w.after_frames(frames.drop_last());
        lemma_separate_lanes_stay_silent(w, frames.drop_last());
        let moved = before.moved(frames.last());
        assert forall|i: int, j: int| 0 <= i < moved.len() && 0 <= j < before.notes.len() implies (
        #[trigger] moved[i]).lane != (#[trigger] before.notes[j]).lane by {
            assert(moved[i].lane == before.playheads[i].lane);
            assert(before.playheads[i].lane == w.playheads[i].lane);
        }
        lemma_lane_isolation(moved, before.notes);
    }
}

/// The playheads and notes of one session in a field that spans
/// `0..=field_width` by `0..=field_height`, each addressed by its index.
pub struct World {
    playheads: Vec<Playhead>,
    notes: Vec<Note>,
    field_width: i64,
    field_height: i64,
}

impl View for World {
    type V = WorldView;

    closed spec fn view(&self) -> WorldView {
        WorldView {
            playheads: playhead_views(self.playheads@),
            notes: note_views(self.notes@),
            field_width: self.field_width,
            field_height: self.field_height,
        }
    }
}

fn check_field(field_width: i64, field_height: i64) -> (checked: Result<(), ConfigError>)
    ensures
        match field_error(field_width, field_height) {
            Some(e) => checked == Err::<(), ConfigError>(e),
            None => checked == Ok::<(), ConfigError>(()),
        },
{
    if field_height == 0 {
        Err(ConfigError::ZeroHeight)
    } else if field_width < 0 || field_height < 0 {
        Err(ConfigError::NegativeExtent)
    } else {
        Ok(())
    }
}

impl World {
    /// An empty world in a field of the given size. A field without height
    /// has no pitch domain and is refused, and so is a negative size.
    pub fn new(field_width: i64, field_height: i64) -> (made: Result<Self, ConfigError>)
        ensures
            match field_error(field_width, field_height) {
                Some(e) => made == Err::<Self, ConfigError>(e),
                None => (made matches Ok(w) && w@ == (WorldView {
                    playheads: Seq::empty(),
                    notes: Seq::empty(),
                    field_width,
                    field_height,
                }) && w@.wf()),
            },
    {
        match check_field(field_width, field_height) {
            Err(e) => Err(e),
            Ok(_) => {
                let world = World { playheads: Vec::new(), notes: Vec::new(), field_width, field_height };
                assert(world@.playheads =~= Seq::empty());
                assert(world@.notes =~= Seq::empty());
                Ok(world)
            },
        }
    }

    /// The width of the field.
    pub fn field_width(&self) -> (width: i64)
        ensures
            width == self@.field_width,
    {
        self.field_width
    }

    /// The height of the field.
    pub fn field_height(&self) -> (height: i64)
        ensures
            height == self@.field_height,
    {
        self.field_height
    }

    /// The playheads, each at the index that is its identity.
    pub fn playheads(&self) -> (playheads: &Vec<Playhead>)
        ensures
            playhead_views(playheads@) == self@.playheads,
    {
        &self.playheads
    }

    /// The notes, each at the index that is its identity.
    pub fn notes(&self) -> (notes: &Vec<Note>)
        ensures
            note_views(notes@) == self@.notes,
    {
        &self.notes
    }

    /// The note with identity `id`, if there is one.
    pub fn note(&self, id: usize) -> (found: Option<Note>)
        ensures
            id < self@.notes.len() ==> (found matches Some(n) && n@ == self@.notes[id as int]),
            id >= self@.notes.len() ==> found is None,
    {
        if id < self.notes.len() {
            Some(self.notes[id])
        } else {
            None
        }
    }

    /// The playhead with identity `id`, if there is one.
    pub fn playhead(&self, id: usize) -> (found: Option<Playhead>)
        ensures
            id < self@.playheads.len() ==> (found matches Some(p) && p@ == self@.playheads[id as int]),
            id >= self@.playheads.len() ==> found is None,
    {
        if id < self.playheads.len() {
            Some(self.playheads[id])
        } else {
            None
        }
    }

    /// Gives the field another size and every note the pitch that its height
    /// has there. Playheads stay where they are and keep their bars. A size
    /// that [`World::new`] would refuse is refused here too, and then
    /// nothing changes.
    pub fn set_field(&mut self, field_width: i64, field_height: i64) -> (set: Result<(), ConfigError>)
        requires
            old(self)@.wf(),
        ensures
            match field_error(field_width, field_height) {
                Some(e) => set == Err::<(), ConfigError>(e) && final(self)@ == old(self)@,
                None => set == Ok::<(), ConfigError>(()) && final(self)@ == old(self)@.resized(
                    field_width,
                    field_height,
                ),
            },
            final(self)@.wf(),
    {
        match check_field(field_width, field_height) {
            Err(e) => Err(e),
            Ok(_) => {
                self.field_width = field_width;
                self.field_height = field_height;
                note_pitch(&mut self.notes, field_height);
                Ok(())
            },
        }
    }

    /// Adds a playhead to `lane`, at the left edge, as high as the field.
    /// Returns its identity, or the error for a speed that is not positive,
    /// in which case nothing is added.
    pub fn spawn_playhead(&mut self, lane: u32, speed: i32, motion_policy: PlayheadDirection) -> (spawned: Result<
        usize,
        ConfigError,
    >)
        requires
            old(self)@.wf(),
        ensures
            speed <= 0 ==> spawned == Err::<usize, ConfigError>(ConfigError::NonPositiveSpeed) && final(self)@
                == old(self)@,
            speed > 0 ==> spawned == Ok::<usize, ConfigError>(old(self)@.playheads.len() as usize)
                && final(self)@ == old(self)@.with_playhead(lane, speed as u32, motion_policy),
            final(self)@.wf(),
    {
        let height: i64 = self.field_height;
        let bar = Bounds {
            center_x: 0,
            center_y: height / 2,
            half_width: PLAYHEAD_HALF_WIDTH,
            half_height: (height - height / 2) as u64,
        };
        let id: usize = self.playheads.len();
        match Playhead::new(id, lane, bar, speed, motion_policy) {
            Err(e) => Err(e),
            Ok(playhead) => {
                self.playheads.push(playhead);
                assert(self@.playheads =~= old(self)@.with_playhead(lane, speed as u32, motion_policy).playheads);
                Ok(id)
            },
        }
    }

    /// Adds an idle note to `lane` and returns its identity. The note's
    /// pitch is the one that its height has in `pitch_range`.
    pub fn spawn_note(&mut self, lane: u32, bounds: Bounds, pitch_range: GlobalSequencerSettings) -> (id: usize)
        requires
            old(self)@.wf(),
        ensures
            id == old(self)@.notes.len(),
            final(self)@ == old(self)@.with_note(lane, bounds, pitch_range),
            final(self)@.wf(),
    {
        let id: usize = self.notes.len();
        let note = Note::new(id, lane, bounds, pitch_range, self.field_height);
        self.notes.push(note);
        assert(self@.notes =~= old(self)@.with_note(lane, bounds, pitch_range).notes);
        id
    }

    /// Moves note `id` to `new_center` and returns its new pitch. The note's
    /// collision state is left as it is: the next frame settles it. An
    /// identity that no note has moves nothing and returns `None`.
    pub fn relocate_note(&mut self, id: usize, new_center: (i64, i64)) -> (pitch: Option<u8>)
        requires
            old(self)@.wf(),
        ensures
            final(self)@ == old(self)@.with_note_moved(id, new_center),
            id < old(self)@.notes.len() ==> pitch == Some(final(self)@.notes[id as int].pitch),
            id >= old(self)@.notes.len() ==> pitch is None,
            final(self)@.wf(),
    {
        if id >= self.notes.len() {
            return None;
        }
        let mut note: Note = self.notes[id];
        note.relocate(new_center.0, new_center.1, self.field_height);
        self.notes.set(id, note);
        assert(self@.notes =~= old(self)@.with_note_moved(id, new_center).notes);
        Some(note.pitch())
    }

    /// One frame: every playhead moves by what it covers in `elapsed_micros`
    /// microseconds, every note is held against the playheads of its lane,
    /// and the events that this gives are returned in the order of the
    /// notes.
    pub fn advance_all(&mut self, elapsed_micros: u64) -> (events: Vec<NoteEvent>)
        requires
            old(self)@.wf(),
        ensures
            final(self)@ == old(self)@.advanced(elapsed_micros as int),
            events@ == old(self)@.events_of(elapsed_micros as int),
            final(self)@.wf(),
    {
        playhead_movement(&mut self.playheads, elapsed_micros, self.field_width);
        assert(playhead_views(self.playheads@) =~= old(self)@.moved(elapsed_micros as int));
        let mut bus = EventBus::new();
        check_for_collisions(&self.playheads, &mut self.notes, &mut bus);
        let events: Vec<NoteEvent> = bus.drain();
        proof {
            assert(events@ =~= old(self)@.events_of(elapsed_micros as int));
            lemma_frame_keeps_wf(old(self)@, elapsed_micros as int);
        }
        events
    }
}

/// Adds one note of the default size at each of `centers` to each of the
/// lanes `0..lanes`, lane by lane, each with the pitch range `pitch_range`.
pub fn spawn_notes_at(
    world: &mut World,
    centers: &Vec<(i64, i64)>,
    lanes: u32,
    pitch_range: GlobalSequencerSettings,
)
    requires
        old(world)@.wf(),
    ensures
        final(world)@ == old(world)@.with_notes_at(centers@, lanes as nat, pitch_range),
        final(world)@.wf(),
{
    let mut lane: u32 = 0;
    while lane < lanes
        invariant
            lane <= lanes,
            world@.wf(),
            world@ == old(world)@.with_notes_at(centers@, lane as nat, pitch_range),
        decreases lanes - lane,
    {
        let ghost lane_start = world@;
        let mut k: usize = 0;
        while k < centers.len()
            invariant
                k <= centers@.len(),
                world@.wf(),
                world@ == lane_start.with_lane_of_notes(lane, centers@.take(k as int), pitch_range),
            decreases centers@.len() - k,
        {
            let center: (i64, i64) = centers[k];
            let bounds = Bounds {
                center_x: center.0,
                center_y: center.1,
                half_width: NOTE_HALF_WIDTH,
                half_height: NOTE_HALF_HEIGHT,
            };
            world.spawn_note(lane, bounds, pitch_range);
            proof {
                assert(centers@.take(k as int + 1).drop_last() =~= centers@.take(k as int));
            }
            k += 1;
        }
        proof {
            assert(centers@.take(k as int) =~= centers@);
        }
        lane += 1;
    }
}

/// Adds the notes of a random session: a few places are drawn in the field,
/// and every lane gets a note at each of them, with the pitch range
/// `pitch_range`.
pub fn spawn_random_notes(world: &mut World, pitch_range: GlobalSequencerSettings)
    requires
        old(world)@.wf(),
    ensures
        exists|centers: Seq<(i64, i64)>|
            {
                &&& centers.len() == NUMBER_OF_RANDOM_NOTES
                &&& forall|k: int| 0 <= k < centers.len() ==> old(world)@.holds(#[trigger] centers[k])
                &&& final(world)@ == old(world)@.with_notes_at(
                    centers,
                    NUMBER_OF_RANDOM_PLAYHEADS as nat,
                    pitch_range,
                )
            },
        final(world)@.wf(),
{
    let width: u64 = world.field_width() as u64;
    let height: u64 = world.field_height() as u64;
    let mut centers: Vec<(i64, i64)> = Vec::new();
    while centers.len() < NUMBER_OF_RANDOM_NOTES
        invariant
            centers@.len() <= NUMBER_OF_RANDOM_NOTES,
            world@ == old(world)@,
            world@.wf(),
            width == world@.field_width,
            height == world@.field_height,
            forall|k: int| 0 <= k < centers@.len() ==> world@.holds(#[trigger] centers@[k]),
        decreases NUMBER_OF_RANDOM_NOTES - centers@.len(),
    {
        let x: u64 = scale_fraction(random_bits(), width);
        let y: u64 = scale_fraction(random_bits(), height);
        centers.push((x as i64, y as i64));
    }
    spawn_notes_at(world, &centers, NUMBER_OF_RANDOM_PLAYHEADS, pitch_range);
}

/// Adds the playheads of a random session: one to each lane, sweeping to
/// the right at a speed drawn between [`RANDOM_SPEED_MIN`] and
/// [`RANDOM_SPEED_MAX`].
pub fn spawn_random_playheads(world: &mut World)
    requires
        old(world)@.wf(),
    ensures
        exists|speeds: Seq<u32>|
            {
                &&& speeds.len() == NUMBER_OF_RANDOM_PLAYHEADS
                &&& forall|k: int|
                    0 <= k < speeds.len() ==> RANDOM_SPEED_MIN <= (#[trigger] speeds[k]) <= RANDOM_SPEED_MAX
                &&& final(world)@ == with_sweepers(old(world)@, speeds)
            },
        final(world)@.wf(),
{
    let ghost mut speeds: Seq<u32> = Seq::empty();
    let mut lane: u32 = 0;
    while lane < NUMBER_OF_RANDOM_PLAYHEADS
        invariant
            lane <= NUMBER_OF_RANDOM_PLAYHEADS,
            speeds.len() == lane,
            forall|k: int| 0 <= k < speeds.len() ==> RANDOM_SPEED_MIN <= (#[trigger] speeds[k]) <= RANDOM_SPEED_MAX,
            world@ == with_sweepers(old(world)@, speeds),
            world@.wf(),
        decreases NUMBER_OF_RANDOM_PLAYHEADS - lane,
    {
        let speed: i32 = random_in_range(RANDOM_SPEED_MIN, RANDOM_SPEED_MAX);
        let _ = world.spawn_playhead(lane, speed, PlayheadDirection::default());
        proof {
            let earlier = speeds;
            speeds = earlier.push(speed as u32);
            assert(speeds.drop_last() =~= earlier);
        }
        lane += 1;
    }
}

/// The world with one more playhead for each of `speeds`, each sweeping to
/// the right in the lane that its index names.
pub open spec fn with_sweepers(w: WorldView, speeds: Seq<u32>) -> WorldView
    decreases speeds.len(),
{
    if speeds.len() == 0 {
        w
    } else {
        with_sweepers(w, speeds.drop_last()).with_playhead(
            (speeds.len() - 1) as u32,
            speeds.last(),
            PlayheadDirection::Right,
        )
    }
}

} // verus!
