//! Playheads, their motion across the field, and the collision pass that
//! feeds every note's state machine once per frame.

use vstd::prelude::*;
use crate::event::{EventBus, NoteEvent};
use crate::geometry::{collide, overlaps, Bounds};
use crate::note::{lemma_state_tells_emission, note_views, sounding, CollisionState, Note, NoteView, Trigger};
use crate::sequence::ConfigError;

verus! {

/// The speed of a playhead that was given none, in field units per second.
pub const DEFAULT_PLAYHEAD_SPEED: i32 = 300;

/// A direction of travel. As a motion policy, `Right` and `Left` sweep in one
/// direction and start over at the opposite edge, and `Pendulum` swings
/// between the edges. As the heading of a pendulum only `Right` and `Left`
/// occur.
#[derive(Clone, Copy, Debug, PartialEq, Eq, Structural)]
pub enum PlayheadDirection {
    Right,
    Left,
    Pendulum,
}

impl Default for PlayheadDirection {
    fn default() -> (direction: Self)
        ensures
            direction == PlayheadDirection::Right,
    {
        PlayheadDirection::Right
    }
}

/// How many edges a pendulum crosses on its way to `there`, a coordinate
/// counted along its heading from the edge behind it, in a field
/// `field_width` wide. It crosses the edge ahead when `there` lies beyond
/// it, and one edge more for each further width that `there` lies beyond. A
/// field without width leaves no room to swing: there the edge ahead counts
/// once.
pub open spec fn bounces_to(there: int, field_width: int) -> int {
    if there <= field_width {
        0
    } else if field_width <= 0 {
        1
    } else {
        (there - 1) / field_width
    }
}

/// Where the way to `there` ends when it is folded back at each edge that it
/// crosses, in the same coordinate. After one crossing that is
/// `2 * field_width - there`. In a field without width it is the edge ahead.
pub open spec fn folded(there: int, field_width: int) -> int {
    if there <= field_width {
        there
    } else if field_width <= 0 {
        field_width
    } else if bounces_to(there, field_width) % 2 == 0 {
        there - bounces_to(there, field_width) * field_width
    } else {
        (bounces_to(there, field_width) + 1) * field_width - there
    }
}

/// A way that leaves a field with room to swing crosses at least one edge
/// and is folded back into the field: after `n` crossings the coordinate
/// lies beyond `n` widths and within `n + 1`.
pub proof fn lemma_folded_lands_in_field(there: int, field_width: int)
    requires
        0 < field_width < there,
    ensures
        bounces_to(there, field_width) >= 1,
        bounces_to(there, field_width) * field_width < there <= (bounces_to(there, field_width) + 1)
            * field_width,
        0 <= folded(there, field_width) <= field_width,
        there <= 2 * field_width ==> bounces_to(there, field_width) == 1 && folded(there, field_width) == 2
            * field_width - there,
{
    let n = (there - 1) / field_width;
    assert(n >= 1 && n * field_width <= there - 1 < (n + 1) * field_width && (n + 1) * field_width == n
        * field_width + field_width) by (nonlinear_arith)
        requires
            0 < field_width < there,
            n == (there - 1) / field_width,
    ;
    if there <= 2 * field_width {
        assert(n == 1) by (nonlinear_arith)
            requires
                n >= 1,
                n * field_width <= there - 1,
                there <= 2 * field_width,
                field_width > 0,
        ;
    }
}

/// What is known of a playhead. Its position is the horizontal centre of its
/// bounds; the rest of the bounds never moves.
pub struct PlayheadView {
    pub id: usize,
    pub lane: u32,
    pub bounds: Bounds,
    pub speed: u32,
    pub direction: PlayheadDirection,
    pub current_direction: PlayheadDirection,
}

impl PlayheadView {
    /// The speed is positive and the heading is a real direction.
    pub open spec fn wf(self) -> bool {
        &&& self.speed > 0
        &&& self.current_direction != PlayheadDirection::Pendulum
    }

    /// Where the playhead stands on the horizontal axis.
    pub open spec fn position(self) -> int {
        self.bounds.center_x as int
    }

    /// The distance covered in `elapsed_micros` microseconds, in sub-units:
    /// units per second times microseconds.
    pub open spec fn travel(self, elapsed_micros: int) -> int {
        self.speed * elapsed_micros
    }

    /// For a pendulum, how far it stands from the edge behind it: a
    /// pendulum that heads right counts from the left edge, one that heads
    /// left from the right edge.
    pub open spec fn phase(self, field_width: int) -> int {
        if self.current_direction == PlayheadDirection::Left {
            field_width - self.position()
        } else {
            self.position()
        }
    }

    /// For a pendulum, the coordinate that the step heads for, counted along
    /// its heading from the edge behind it.
    pub open spec fn swing_target(self, elapsed_micros: int, field_width: int) -> int {
        self.phase(field_width) + self.travel(elapsed_micros)
    }

    /// How many edges the step crosses. A sweep crosses at most the edge
    /// ahead of it; a pendulum crosses an edge each time it is thrown back.
    /// Standing exactly on an edge is not crossing it, and a step of no time
    /// crosses nothing.
    pub open spec fn bounces(self, elapsed_micros: int, field_width: int) -> int {
        if elapsed_micros == 0 {
            0
        } else {
            match self.direction {
                PlayheadDirection::Right => if self.position() + self.travel(elapsed_micros) > field_width {
                    1
                } else {
                    0
                },
                PlayheadDirection::Left => if self.position() - self.travel(elapsed_micros) < 0 {
                    1
                } else {
                    0
                },
                PlayheadDirection::Pendulum => if self.current_direction == PlayheadDirection::Pendulum {
                    0
                } else {
                    bounces_to(self.swing_target(elapsed_micros, field_width), field_width)
                },
            }
        }
    }

    /// Whether the step leaves the field, so that the playhead starts over
    /// or turns.
    pub open spec fn crosses_edge(self, elapsed_micros: int, field_width: int) -> bool {
        self.bounces(elapsed_micros, field_width) > 0
    }

    /// The position after a step of `elapsed_micros` in a field that spans
    /// `0..=field_width`.
    ///
    /// A sweep to the right that leaves the field starts over at 0, one to
    /// the left at `field_width`. A pendulum that leaves the field is thrown
    /// back from the edge by as much as it went beyond it, and from the
    /// opposite edge again if the step is long enough to reach that too. A
    /// step of no time changes nothing.
    pub open spec fn next_position(self, elapsed_micros: int, field_width: int) -> int {
        if elapsed_micros == 0 {
            self.position()
        } else {
            match self.direction {
                PlayheadDirection::Right => if self.crosses_edge(elapsed_micros, field_width) {
                    0
                } else {
                    self.position() + self.travel(elapsed_micros)
                },
                PlayheadDirection::Left => if self.crosses_edge(elapsed_micros, field_width) {
                    field_width
                } else {
                    self.position() - self.travel(elapsed_micros)
                },
                PlayheadDirection::Pendulum => match self.current_direction {
                    PlayheadDirection::Right => folded(self.swing_target(elapsed_micros, field_width), field_width),
                    PlayheadDirection::Left => field_width - folded(
                        self.swing_target(elapsed_micros, field_width),
                        field_width,
                    ),
                    PlayheadDirection::Pendulum => self.position(),
                },
            }
        }
    }

    /// The heading after the step: a pendulum turns round once for each edge
    /// that it crosses, and nothing else ever changes a heading.
    pub open spec fn next_heading(self, elapsed_micros: int, field_width: int) -> PlayheadDirection {
        if self.direction == PlayheadDirection::Pendulum && self.bounces(elapsed_micros, field_width) % 2 == 1 {
            match self.current_direction {
                PlayheadDirection::Right => PlayheadDirection::Left,
                PlayheadDirection::Left => PlayheadDirection::Right,
                PlayheadDirection::Pendulum => PlayheadDirection::Pendulum,
            }
        } else {
            self.current_direction
        }
    }

    /// The playhead after the step: position and heading move, all else
    /// stays.
    pub open spec fn advanced(self, elapsed_micros: int, field_width: int) -> PlayheadView {
        PlayheadView {
            bounds: Bounds { center_x: self.next_position(elapsed_micros, field_width) as i64, ..self.bounds },
            current_direction: self.next_heading(elapsed_micros, field_width),
            ..self
        }
    }

    /// Whether this playhead triggers `note`: both lie in one lane and their
    /// rectangles overlap.
    pub open spec fn strikes(self, note: NoteView) -> bool {
        self.lane == note.lane && overlaps(self.bounds, note.bounds)
    }
}

/// The views of a sequence of playheads.
pub open spec fn playhead_views(playheads: Seq<Playhead>) -> Seq<PlayheadView> {
    playheads.map_values(|p: Playhead| p@)
}

/// The overlap fact of `note` for one frame: whether any playhead strikes
/// it. Several playheads over one note count as one overlap.
pub open spec fn struck(playheads: Seq<PlayheadView>, note: NoteView) -> bool {
    exists|i: int| 0 <= i < playheads.len() && (#[trigger] playheads[i]).strikes(note)
}

/// Each note after one collision pass.
pub open spec fn frame_notes(playheads: Seq<PlayheadView>, notes: Seq<NoteView>) -> Seq<NoteView> {
    notes.map_values(|n: NoteView| n.observed(struck(playheads, n)))
}

/// The events of one collision pass: for each note in turn, what its
/// transition emits.
pub open spec fn frame_events(playheads: Seq<PlayheadView>, notes: Seq<NoteView>) -> Seq<NoteEvent>
    decreases notes.len(),
{
    if notes.len() == 0 {
        Seq::empty()
    } else {
        frame_events(playheads, notes.drop_last()) + notes.last().events_on(struck(playheads, notes.last()))
    }
}

/// The events that the states of `notes` tell of the frame that led to
/// them, note by note.
pub open spec fn changed_events(notes: Seq<NoteView>) -> Seq<NoteEvent>
    decreases notes.len(),
{
    if notes.len() == 0 {
        Seq::empty()
    } else {
        changed_events(notes.drop_last()) + notes.last().edge_events()
    }
}

/// Reading the events off the notes after a collision pass gives the events
/// that the pass itself emitted.
pub proof fn lemma_changed_events_are_frame_events(playheads: Seq<PlayheadView>, notes: Seq<NoteView>)
    ensures
        changed_events(frame_notes(playheads, notes)) == frame_events(playheads, notes),
    decreases notes.len(),
{
    if notes.len() > 0 {
        lemma_changed_events_are_frame_events(playheads, notes.drop_last());
        assert(frame_notes(playheads, notes).drop_last() =~= frame_notes(playheads, notes.drop_last()));
        lemma_state_tells_emission(notes.last().state, struck(playheads, notes.last()));
    }
}

/// Lanes do not mix. Where no playhead shares a lane with any note and every
/// note is idle, a collision pass emits nothing and changes nothing,
/// wherever the playheads and the notes lie.
pub proof fn lemma_lane_isolation(playheads: Seq<PlayheadView>, notes: Seq<NoteView>)
    requires
        forall|i: int, j: int|
            0 <= i < playheads.len() && 0 <= j < notes.len() ==> (#[trigger] playheads[i]).lane != (
            #[trigger] notes[j]).lane,
        forall|j: int| 0 <= j < notes.len() ==> (#[trigger] notes[j]).state == CollisionState::NoCollision,
    ensures
        forall|j: int| 0 <= j < notes.len() ==> !struck(playheads, #[trigger] notes[j]),
        frame_events(playheads, notes) == Seq::<NoteEvent>::empty(),
        frame_notes(playheads, notes) == notes,
    decreases notes.len(),
{
    if notes.len() > 0 {
        let earlier = notes.drop_last();
        lemma_lane_isolation(playheads, earlier);
        assert(!struck(playheads, notes.last()));
        assert forall|j: int| 0 <= j < notes.len() implies !struck(playheads, #[trigger] notes[j]) by {
            if j < notes.len() - 1 {
                assert(notes[j] == earlier[j]);
            }
        }
    }
    assert(frame_notes(playheads, notes) =~= notes);
}

/// A playhead in another lane never triggers a note, whatever their
/// rectangles.
pub proof fn lemma_other_lane_never_strikes(playhead: PlayheadView, note: NoteView)
    requires
        playhead.lane != note.lane,
    ensures
        !playhead.strikes(note),
        !struck(seq![playhead], note),
        note.state == CollisionState::NoCollision ==> frame_events(seq![playhead], seq![note]) == Seq::<
            NoteEvent,
        >::empty(),
{
    let notes = seq![note];
    assert(notes.drop_last() =~= Seq::<NoteView>::empty());
    assert(frame_events(seq![playhead], notes.drop_last()) =~= Seq::<NoteEvent>::empty());
    if note.state == CollisionState::NoCollision {
        assert(frame_events(seq![playhead], notes) =~= Seq::<NoteEvent>::empty());
    }
}

/// However many playheads lie over a note at once, the note sees one
/// overlap. A frame draws at most one event from it; a silent note that is
/// struck by two playheads is switched on once; and a sounding note is
/// switched off exactly when no playhead of its lane overlaps it any more.
pub proof fn lemma_overlapping_playheads_count_once(
    playheads: Seq<PlayheadView>,
    note: NoteView,
    first: int,
    second: int,
)
    requires
        0 <= first < second < playheads.len(),
        playheads[first].strikes(note),
        playheads[second].strikes(note),
    ensures
        struck(playheads, note),
        note.events_on(struck(playheads, note)).len() <= 1,
        !sounding(note.state) ==> note.events_on(struck(playheads, note)) == seq![note.event_for(Trigger::NoteOn)]
            && note.observed(struck(playheads, note)).state == CollisionState::CollisionStart,
        sounding(note.state) ==> note.events_on(struck(playheads, note)) == Seq::<NoteEvent>::empty()
            && note.observed(struck(playheads, note)).state == CollisionState::CollisionContinue,
{
}

/// A sounding note is released exactly when no playhead strikes it, and it
/// is then released once.
pub proof fn lemma_release_needs_no_overlap(playheads: Seq<PlayheadView>, note: NoteView)
    requires
        sounding(note.state),
    ensures
        note.observed(struck(playheads, note)).state == CollisionState::CollisionEnd <==> (forall|i: int|
            0 <= i < playheads.len() ==> !(#[trigger] playheads[i]).strikes(note)),
        note.events_on(struck(playheads, note)) == seq![note.event_for(Trigger::NoteOff)] <==> !struck(
            playheads,
            note,
        ),
        struck(playheads, note) ==> note.events_on(struck(playheads, note)) == Seq::<NoteEvent>::empty(),
{
    if !struck(playheads, note) {
        assert(note.events_on(false) =~= seq![note.event_for(Trigger::NoteOff)]);
    } else {
        assert(note.events_on(true) =~= Seq::<NoteEvent>::empty());
        assert(seq![note.event_for(Trigger::NoteOff)].len() == 1);
    }
}

/// A step never carries a playhead out of the range of its coordinate.
pub proof fn lemma_next_position_fits(p: PlayheadView, elapsed_micros: int, field_width: int)
    requires
        elapsed_micros >= 0,
        i64::MIN <= field_width <= i64::MAX,
    ensures
        i64::MIN <= p.next_position(elapsed_micros, field_width) <= i64::MAX,
        p.advanced(elapsed_micros, field_width).position() == p.next_position(elapsed_micros, field_width),
{
    assert(p.travel(elapsed_micros) >= 0) by (nonlinear_arith)
        requires
            p.speed >= 0,
            elapsed_micros >= 0,
            p.travel(elapsed_micros) == p.speed * elapsed_micros,
    ;
    let there = p.swing_target(elapsed_micros, field_width);
    if 0 < field_width < there {
        lemma_folded_lands_in_field(there, field_width);
    }
}

/// A step of no time is no step.
pub proof fn lemma_zero_elapsed_is_noop(p: PlayheadView, field_width: int)
    ensures
        p.advanced(0, field_width) == p,
{
}

/// A pendulum turns round once for each edge that it crosses and never
/// otherwise; a step that ends on the edge itself crosses nothing. A
/// playhead that sweeps never changes its heading.
pub proof fn lemma_turns_only_on_crossing(p: PlayheadView, elapsed_micros: int, field_width: int)
    requires
        p.wf(),
    ensures
        p.bounces(elapsed_micros, field_width) >= 0,
        p.next_heading(elapsed_micros, field_width) != p.current_direction <==> (p.direction
            == PlayheadDirection::Pendulum && p.bounces(elapsed_micros, field_width) % 2 == 1),
        p.direction == PlayheadDirection::Pendulum && p.current_direction == PlayheadDirection::Right
            && elapsed_micros != 0 ==> (p.crosses_edge(elapsed_micros, field_width) <==> p.position() + p.travel(
            elapsed_micros,
        ) > field_width),
        p.direction == PlayheadDirection::Pendulum && p.current_direction == PlayheadDirection::Left
            && elapsed_micros != 0 ==> (p.crosses_edge(elapsed_micros, field_width) <==> p.position() - p.travel(
            elapsed_micros,
        ) < 0),
        !p.crosses_edge(elapsed_micros, field_width) ==> p.next_heading(elapsed_micros, field_width)
            == p.current_direction,
        p.advanced(elapsed_micros, field_width).wf(),
{
    let there = p.swing_target(elapsed_micros, field_width);
    if 0 < field_width < there {
        lemma_folded_lands_in_field(there, field_width);
    }
}

/// A true bounce. A pendulum that crosses the edge ahead of it, and has not
/// the time to reach the opposite edge as well, is thrown back by as much as
/// it went beyond the edge, and turns round once.
pub proof fn lemma_pendulum_bounces_back(p: PlayheadView, elapsed_micros: int, field_width: int)
    requires
        p.wf(),
        p.direction == PlayheadDirection::Pendulum,
        elapsed_micros != 0,
        field_width > 0,
    ensures
        p.current_direction == PlayheadDirection::Right && field_width < p.position() + p.travel(elapsed_micros)
            <= 2 * field_width ==> {
            &&& p.bounces(elapsed_micros, field_width) == 1
            &&& p.next_position(elapsed_micros, field_width) == 2 * field_width - (p.position() + p.travel(
                elapsed_micros,
            ))
            &&& p.next_heading(elapsed_micros, field_width) == PlayheadDirection::Left
        },
        p.current_direction == PlayheadDirection::Left && -field_width <= p.position() - p.travel(elapsed_micros)
            < 0 ==> {
            &&& p.bounces(elapsed_micros, field_width) == 1
            &&& p.next_position(elapsed_micros, field_width) == p.travel(elapsed_micros) - p.position()
            &&& p.next_heading(elapsed_micros, field_width) == PlayheadDirection::Right
        },
{
    let there = p.swing_target(elapsed_micros, field_width);
    if field_width < there {
        lemma_folded_lands_in_field(there, field_width);
    }
}

/// A playhead inside the field stays inside it, whatever its motion policy
/// and however long the step.
pub proof fn lemma_stays_in_field(p: PlayheadView, elapsed_micros: int, field_width: int)
    requires
        elapsed_micros >= 0,
        0 <= p.position() <= field_width,
    ensures
        0 <= p.next_position(elapsed_micros, field_width) <= field_width,
{
    assert(p.travel(elapsed_micros) >= 0) by (nonlinear_arith)
        requires
            p.speed >= 0,
            elapsed_micros >= 0,
            p.travel(elapsed_micros) == p.speed * elapsed_micros,
    ;
    let there = p.swing_target(elapsed_micros, field_width);
    if 0 < field_width < there {
        lemma_folded_lands_in_field(there, field_width);
    }
}

/// The playhead after one step for each entry of `steps`, in order.
pub open spec fn after_steps(p: PlayheadView, steps: Seq<int>, field_width: int) -> PlayheadView
    decreases steps.len(),
{
    if steps.len() == 0 {
        p
    } else {
        after_steps(p, steps.drop_last(), field_width).advanced(steps.last(), field_width)
    }
}

/// How many edges are crossed on the way through `steps`.
pub open spec fn turns_in(p: PlayheadView, steps: Seq<int>, field_width: int) -> int
    decreases steps.len(),
{
    if steps.len() == 0 {
        0
    } else {
        turns_in(p, steps.drop_last(), field_width) + after_steps(p, steps.drop_last(), field_width).bounces(
            steps.last(),
            field_width,
        )
    }
}

/// The time that `steps` take together.
pub open spec fn total_time(steps: Seq<int>) -> int
    decreases steps.len(),
{
    if steps.len() == 0 {
        0
    } else {
        total_time(steps.drop_last()) + steps.last()
    }
}

/// Crossings add up. A way that is cut in two crosses, in its second part,
/// the edges that the whole way crosses and the first part has not crossed
/// yet.
pub proof fn lemma_bounces_add_up(part: int, whole: int, field_width: int)
    requires
        field_width > 0,
        part <= whole,
    ensures
        bounces_to(whole - bounces_to(part, field_width) * field_width, field_width) == bounces_to(
            whole,
            field_width,
        ) - bounces_to(part, field_width),
{
    let w = field_width;
    let n = bounces_to(part, w);
    if part <= w {
        assert(n * w == 0) by (nonlinear_arith)
            requires
                n == 0,
        ;
    } else {
        lemma_folded_lands_in_field(part, w);
        lemma_folded_lands_in_field(whole, w);
        let big = bounces_to(whole, w);
        let rest = whole - n * w;
        assert((n + 1) * w == n * w + w && (big + 1) * w == big * w + w && (big - n) * w == big * w - n * w && (
        big - n + 1) * w == big * w - n * w + w) by (nonlinear_arith);
        if rest <= w {
            assert(big == n) by (nonlinear_arith)
                requires
                    w > 0,
                    big * w < whole <= big * w + w,
                    n * w < whole <= n * w + w,
            ;
        } else {
            lemma_folded_lands_in_field(rest, w);
            let m = bounces_to(rest, w);
            assert((m + 1) * w == m * w + w) by (nonlinear_arith);
            assert(m == big - n) by (nonlinear_arith)
                requires
                    w > 0,
                    m * w < rest <= m * w + w,
                    (big - n) * w < rest <= (big - n) * w + w,
            ;
        }
    }
}

/// One step of a pendulum inside a field with room to swing, told by how
/// far it stands from the edge behind it: the step adds its travel to that
/// distance and takes a width off for each edge crossed, and the pendulum
/// turns round as often as it crosses.
pub proof fn lemma_swing_in_phase(p: PlayheadView, elapsed_micros: int, field_width: int)
    requires
        p.wf(),
        p.direction == PlayheadDirection::Pendulum,
        elapsed_micros >= 0,
        0 <= p.position() <= field_width <= i64::MAX,
        field_width > 0,
    ensures
        p.travel(elapsed_micros) >= 0,
        ({
            let q = p.advanced(elapsed_micros, field_width);
            let crossed = bounces_to(p.swing_target(elapsed_micros, field_width), field_width);
            &&& p.bounces(elapsed_micros, field_width) == crossed
            &&& crossed >= 0
            &&& q.wf()
            &&& q.direction == PlayheadDirection::Pendulum
            &&& q.speed == p.speed
            &&& 0 <= q.position() <= field_width
            &&& q.phase(field_width) == p.swing_target(elapsed_micros, field_width) - crossed * field_width
            &&& q.current_direction == p.current_direction <==> crossed % 2 == 0
            &&& q == (PlayheadView {
                bounds: Bounds { center_x: q.bounds.center_x, ..p.bounds },
                current_direction: q.current_direction,
                ..p
            })
        }),
{
    let w = field_width;
    let there = p.swing_target(elapsed_micros, w);
    let crossed = bounces_to(there, w);
    assert(p.travel(elapsed_micros) >= 0 && (elapsed_micros == 0 ==> p.travel(elapsed_micros) == 0))
        by (nonlinear_arith)
        requires
            p.speed >= 0,
            elapsed_micros >= 0,
            p.travel(elapsed_micros) == p.speed * elapsed_micros,
    ;
    if there > w {
        lemma_folded_lands_in_field(there, w);
        assert((crossed + 1) * w == crossed * w + w) by (nonlinear_arith);
    } else {
        assert(crossed * w == 0) by (nonlinear_arith)
            requires
                crossed == 0,
        ;
    }
    lemma_next_position_fits(p, elapsed_micros, w);
}

/// Two steps of a pendulum are one step of their time together. Inside a
/// field with room to swing, where a pendulum stands and how it heads
/// depends on the time that has passed and not on how that time was cut
/// into steps; and the edges crossed in the two steps are those crossed in
/// the one.
pub proof fn lemma_swings_add_up(p: PlayheadView, first: int, second: int, field_width: int)
    requires
        p.wf(),
        p.direction == PlayheadDirection::Pendulum,
        first >= 0,
        second >= 0,
        0 <= p.position() <= field_width <= i64::MAX,
        field_width > 0,
    ensures
        p.advanced(first, field_width).advanced(second, field_width) == p.advanced(first + second, field_width),
        p.bounces(first, field_width) + p.advanced(first, field_width).bounces(second, field_width) == p.bounces(
            first + second,
            field_width,
        ),
{
    let w = field_width;
    let q = p.advanced(first, w);
    let r = q.advanced(second, w);
    let whole = p.advanced(first + second, w);
    lemma_swing_in_phase(p, first, w);
    lemma_swing_in_phase(q, second, w);
    lemma_swing_in_phase(p, first + second, w);
    assert(p.travel(first + second) == p.travel(first) + q.travel(second)) by (nonlinear_arith)
        requires
            q.speed == p.speed,
            p.travel(first + second) == p.speed * (first + second),
            p.travel(first) == p.speed * first,
            q.travel(second) == q.speed * second,
    ;
    let part = p.swing_target(first, w);
    let all = p.swing_target(first + second, w);
    let n1 = bounces_to(part, w);
    let n2 = bounces_to(q.swing_target(second, w), w);
    let n = bounces_to(all, w);
    lemma_bounces_add_up(part, all, w);
    assert(q.swing_target(second, w) == all - n1 * w);
    assert(n == n1 + n2);
    assert((n1 + n2) * w == n1 * w + n2 * w) by (nonlinear_arith);
    assert(r.phase(w) == whole.phase(w));
    assert(r.current_direction == whole.current_direction);
    assert(r.position() == whole.position());
    assert(r.bounds.center_x == whole.bounds.center_x);
}

/// However the time of a pendulum is cut into steps, it ends where one step
/// of the whole time ends, heading as that step ends, having crossed the
/// edges that that step crosses.
pub proof fn lemma_steps_add_up(p: PlayheadView, steps: Seq<int>, field_width: int)
    requires
        p.wf(),
        p.direction == PlayheadDirection::Pendulum,
        0 <= p.position() <= field_width <= i64::MAX,
        field_width > 0,
        forall|i: int| 0 <= i < steps.len() ==> steps[i] >= 0,
    ensures
        after_steps(p, steps, field_width) == p.advanced(total_time(steps), field_width),
        turns_in(p, steps, field_width) == p.bounces(total_time(steps), field_width),
    decreases steps.len(),
{
    if steps.len() > 0 {
        let earlier = steps.drop_last();
        assert forall|i: int| 0 <= i < earlier.len() implies earlier[i] >= 0 by {
            assert(earlier[i] == steps[i]);
        }
        lemma_total_time_not_negative(earlier);
        lemma_steps_add_up(p, earlier, field_width);
        lemma_swings_add_up(p, total_time(earlier), steps.last(), field_width);
    }
}

/// A pendulum that sets out to the right from inside the field, and in all
/// travels far enough to pass the far edge but not far enough to come back
/// to the near one, crosses exactly one edge, however its time is cut into
/// steps. It ends heading left, as far inside the far edge as its travel
/// would have carried it beyond.
pub proof fn lemma_pendulum_turns_once(p: PlayheadView, steps: Seq<int>, field_width: int)
    requires
        p.wf(),
        p.direction == PlayheadDirection::Pendulum,
        p.current_direction == PlayheadDirection::Right,
        0 <= p.position() <= field_width <= i64::MAX,
        forall|i: int| 0 <= i < steps.len() ==> steps[i] >= 0,
        field_width < p.position() + p.travel(total_time(steps)) <= 2 * field_width,
    ensures
        turns_in(p, steps, field_width) == 1,
        after_steps(p, steps, field_width).current_direction == PlayheadDirection::Left,
        after_steps(p, steps, field_width).position() == 2 * field_width - (p.position() + p.travel(
            total_time(steps),
        )),
{
    lemma_total_time_not_negative(steps);
    lemma_steps_add_up(p, steps, field_width);
    lemma_swing_in_phase(p, total_time(steps), field_width);
    lemma_folded_lands_in_field(p.swing_target(total_time(steps), field_width), field_width);
    if total_time(steps) == 0 {
        assert(p.speed * 0 == 0) by (nonlinear_arith);
    }
}

/// A pendulum that sets out to the right from inside the field and in all
/// travels no further than the far edge never turns, however its time is
/// cut into steps: reaching the edge is not crossing it.
pub proof fn lemma_pendulum_touch_does_not_turn(p: PlayheadView, steps: Seq<int>, field_width: int)
    requires
        p.wf(),
        p.direction == PlayheadDirection::Pendulum,
        p.current_direction == PlayheadDirection::Right,
        0 <= p.position() <= field_width <= i64::MAX,
        field_width > 0,
        forall|i: int| 0 <= i < steps.len() ==> steps[i] >= 0,
        p.position() + p.travel(total_time(steps)) <= field_width,
    ensures
        turns_in(p, steps, field_width) == 0,
        after_steps(p, steps, field_width).current_direction == PlayheadDirection::Right,
        after_steps(p, steps, field_width).position() == p.position() + p.travel(total_time(steps)),
{
    lemma_total_time_not_negative(steps);
    lemma_steps_add_up(p, steps, field_width);
    lemma_swing_in_phase(p, total_time(steps), field_width);
    if total_time(steps) == 0 {
        assert(p.speed * 0 == 0) by (nonlinear_arith);
    }
}

/// Steps that each take time take time together.
pub proof fn lemma_total_time_not_negative(steps: Seq<int>)
    requires
        forall|i: int| 0 <= i < steps.len() ==> steps[i] >= 0,
    ensures
        total_time(steps) >= 0,
    decreases steps.len(),
{
    if steps.len() > 0 {
        let earlier = steps.drop_last();
        assert forall|i: int| 0 <= i < earlier.len() implies earlier[i] >= 0 by {
            assert(earlier[i] == steps[i]);
        }
        lemma_total_time_not_negative(earlier);
    }
}

/// A moving probe that sweeps across the field and triggers the notes of its
/// lane.
#[derive(Clone, Copy, Debug)]
pub struct Playhead {
    id: usize,
    lane: u32,
    bounds: Bounds,
    speed: u32,
    direction: PlayheadDirection,
    current_direction: PlayheadDirection,
}

impl View for Playhead {
    type V = PlayheadView;

    closed spec fn view(&self) -> PlayheadView {
        PlayheadView {
            id: self.id,
            lane: self.lane,
            bounds: self.bounds,
            speed: self.speed,
            direction: self.direction,
            current_direction: self.current_direction,
        }
    }
}

impl Default for Playhead {
    fn default() -> (playhead: Self)
        ensures
            playhead@.direction == PlayheadDirection::Right,
            playhead@.current_direction == PlayheadDirection::Right,
            playhead@.speed == DEFAULT_PLAYHEAD_SPEED,
            playhead@.id == 0,
            playhead@.lane == 0,
            playhead@.bounds == (Bounds { center_x: 0, center_y: 0, half_width: 0, half_height: 0 }),
            playhead@.wf(),
    {
        Playhead {
            id: 0,
            lane: 0,
            bounds: Bounds { center_x: 0, center_y: 0, half_width: 0, half_height: 0 },
            speed: DEFAULT_PLAYHEAD_SPEED as u32,
            direction: PlayheadDirection::Right,
            current_direction: PlayheadDirection::Right,
        }
    }
}

/// Folds the way to `there` back into a field `width` wide, and tells
/// whether the number of edges crossed on the way is odd.
fn fold(there: i128, width: i128) -> (end: (i128, bool))
    requires
        -0x1_0000_0000_0000_0000_0000_0000 < there < 0x1_0000_0000_0000_0000_0000_0000,
        i64::MIN <= width <= i64::MAX,
    ensures
        end.0 == folded(there as int, width as int),
        end.1 == (bounces_to(there as int, width as int) % 2 == 1),
{
    if there <= width {
        (there, false)
    } else if width <= 0 {
        (width, true)
    } else {
        proof {
            lemma_folded_lands_in_field(there as int, width as int);
        }
        let crossings: i128 = (there - 1) / width;
        assert(crossings <= there) by (nonlinear_arith)
            requires
                crossings * width < there,
                width >= 1,
                crossings >= 1,
        ;
        if crossings % 2 == 0 {
            (there - crossings * width, false)
        } else {
            ((crossings + 1) * width - there, true)
        }
    }
}

/// The heading that a playhead with motion policy `direction` sets out with.
pub open spec fn initial_heading(direction: PlayheadDirection) -> PlayheadDirection {
    if direction == PlayheadDirection::Left {
        PlayheadDirection::Left
    } else {
        PlayheadDirection::Right
    }
}

impl Playhead {
    /// A playhead with the given identity, lane, extent, speed (in field
    /// units per second) and motion policy. A speed that is not positive is
    /// refused.
    pub fn new(id: usize, lane: u32, bounds: Bounds, speed: i32, direction: PlayheadDirection) -> (made: Result<
        Self,
        ConfigError,
    >)
        ensures
            speed <= 0 <==> made == Err::<Self, ConfigError>(ConfigError::NonPositiveSpeed),
            speed > 0 <==> made is Ok,
            made matches Ok(p) ==> (p@ == (PlayheadView {
                id,
                lane,
                bounds,
                speed: speed as u32,
                direction,
                current_direction: initial_heading(direction),
            }) && p@.wf()),
    {
        if speed <= 0 {
            return Err(ConfigError::NonPositiveSpeed);
        }
        let current_direction = match direction {
            PlayheadDirection::Left => PlayheadDirection::Left,
            _ => PlayheadDirection::Right,
        };
        Ok(Playhead { id, lane, bounds, speed: speed as u32, direction, current_direction })
    }

    /// The playhead's identity.
    pub fn id(&self) -> (id: usize)
        ensures
            id == self@.id,
    {
        self.id
    }

    /// The lane that the playhead sweeps.
    pub fn lane(&self) -> (lane: u32)
        ensures
            lane == self@.lane,
    {
        self.lane
    }

    /// The rectangle that the playhead covers at this moment.
    pub fn bounds(&self) -> (bounds: Bounds)
        ensures
            bounds == self@.bounds,
    {
        self.bounds
    }

    /// Where the playhead stands on the horizontal axis.
    pub fn position(&self) -> (x: i64)
        ensures
            x == self@.position(),
    {
        self.bounds.center_x
    }

    /// The speed, in field units per second.
    pub fn speed(&self) -> (speed: u32)
        ensures
            speed == self@.speed,
    {
        self.speed
    }

    /// The motion policy.
    pub fn direction(&self) -> (direction: PlayheadDirection)
        ensures
            direction == self@.direction,
    {
        self.direction
    }

    /// The heading. It matters for a pendulum only.
    pub fn current_direction(&self) -> (heading: PlayheadDirection)
        ensures
            heading == self@.current_direction,
    {
        self.current_direction
    }

    /// Moves the playhead by what it covers in `elapsed_micros` microseconds,
    /// in a field that spans `0..=field_width`.
    pub fn advance(&mut self, elapsed_micros: u64, field_width: i64)
        ensures
            final(self)@ == old(self)@.advanced(elapsed_micros as int, field_width as int),
            final(self)@.position() == old(self)@.next_position(elapsed_micros as int, field_width as int),
    {
        proof {
            lemma_next_position_fits(self@, elapsed_micros as int, field_width as int);
        }
        if elapsed_micros == 0 {
            return ;
        }
        assert(0 <= self.speed * elapsed_micros <= 0xffff_ffff * 0xffff_ffff_ffff_ffff) by (nonlinear_arith)
            requires
                0 <= self.speed <= 0xffff_ffff,
                0 <= elapsed_micros <= 0xffff_ffff_ffff_ffff,
        ;
        let travel: i128 = self.speed as i128 * elapsed_micros as i128;
        let here: i128 = self.bounds.center_x as i128;
        let width: i128 = field_width as i128;
        match self.direction {
            PlayheadDirection::Right => {
                let there: i128 = here + travel;
                self.bounds.center_x = if there > width {
                    0
                } else {
                    there as i64
                };
            },
            PlayheadDirection::Left => {
                let there: i128 = here - travel;
                self.bounds.center_x = if there < 0 {
                    field_width
                } else {
                    there as i64
                };
            },
            PlayheadDirection::Pendulum => match self.current_direction {
                PlayheadDirection::Right => {
                    let (landed, turned): (i128, bool) = fold(here + travel, width);
                    self.bounds.center_x = landed as i64;
                    if turned {
                        self.current_direction = PlayheadDirection::Left;
                    }
                },
                PlayheadDirection::Left => {
                    let (landed, turned): (i128, bool) = fold(width - here + travel, width);
                    self.bounds.center_x = (width - landed) as i64;
                    if turned {
                        self.current_direction = PlayheadDirection::Right;
                    }
                },
                PlayheadDirection::Pendulum => {},
            },
        }
    }

    /// Whether this playhead triggers `note`.
    pub fn strikes(&self, note: &Note) -> (hit: bool)
        ensures
            hit == self@.strikes(note@),
    {
        self.lane == note.lane() && collide(&self.bounds, &note.bounds())
    }
}

/// Moves every playhead by what it covers in `elapsed_micros` microseconds.
pub fn playhead_movement(playheads: &mut Vec<Playhead>, elapsed_micros: u64, field_width: i64)
    ensures
        final(playheads)@.len() == old(playheads)@.len(),
        forall|i: int|
            0 <= i < old(playheads)@.len() ==> (#[trigger] final(playheads)@[i])@ == old(playheads)@[i]@.advanced(
                elapsed_micros as int,
                field_width as int,
            ),
{
    let ghost before = playheads@;
    let mut i: usize = 0;
    while i < playheads.len()
        invariant
            i <= playheads@.len(),
            playheads@.len() == before.len(),
            forall|k: int|
                0 <= k < i ==> (#[trigger] playheads@[k])@ == before[k]@.advanced(
                    elapsed_micros as int,
                    field_width as int,
                ),
            forall|k: int| i <= k < before.len() ==> playheads@[k] == before[k],
        decreases playheads@.len() - i,
    {
        let mut playhead: Playhead = playheads[i];
        playhead.advance(elapsed_micros, field_width);
        playheads.set(i, playhead);
        i += 1;
    }
}

/// Whether any of `playheads` triggers `note`.
pub fn is_struck(playheads: &Vec<Playhead>, note: &Note) -> (hit: bool)
    ensures
        hit == struck(playhead_views(playheads@), note@),
{
    let mut i: usize = 0;
    while i < playheads.len()
        invariant
            i <= playheads@.len(),
            forall|k: int| 0 <= k < i ==> !(#[trigger] playhead_views(playheads@)[k]).strikes(note@),
        decreases playheads@.len() - i,
    {
        if playheads[i].strikes(note) {
            assert(playhead_views(playheads@)[i as int].strikes(note@));
            return true;
        }
        i += 1;
    }
    false
}

/// The collision pass of one frame. Each note is tested against the
/// playheads of its lane, the resulting overlap fact is fed to the note's
/// state machine, and what the machine emits goes onto the bus, note by
/// note.
pub fn check_for_collisions(playheads: &Vec<Playhead>, notes: &mut Vec<Note>, bus: &mut EventBus)
    ensures
        note_views(final(notes)@) == frame_notes(playhead_views(playheads@), note_views(old(notes)@)),
        final(bus)@ == old(bus)@ + frame_events(playhead_views(playheads@), note_views(old(notes)@)),
{
    let ghost before = notes@;
    let ghost pending = bus@;
    let ghost heads = playhead_views(playheads@);
    let mut j: usize = 0;
    proof {
        assert(note_views(before.take(0)) =~= Seq::<NoteView>::empty());
        assert(pending + frame_events(heads, note_views(before.take(0))) =~= pending);
    }
    while j < notes.len()
        invariant
            j <= notes@.len(),
            notes@.len() == before.len(),
            heads == playhead_views(playheads@),
            forall|k: int| 0 <= k < j ==> (#[trigger] notes@[k])@ == before[k]@.observed(struck(heads, before[k]@)),
            forall|k: int| j <= k < before.len() ==> notes@[k] == before[k],
            bus@ == pending + frame_events(heads, note_views(before.take(j as int))),
        decreases notes@.len() - j,
    {
        let mut note: Note = notes[j];
        let hit: bool = is_struck(playheads, &note);
        let event: Option<NoteEvent> = note.observe(hit);
        notes.set(j, note);
        if let Some(e) = event {
            bus.emit(e);
        }
        proof {
            let upto = note_views(before.take(j as int + 1));
            assert(upto.drop_last() =~= note_views(before.take(j as int)));
            assert(upto.last() == before[j as int]@);
            assert(bus@ =~= pending + frame_events(heads, upto));
        }
        j += 1;
    }
    proof {
        assert(before.take(j as int) =~= before);
        assert(note_views(notes@) =~= frame_notes(heads, note_views(before)));
    }
}

/// Puts onto the bus, note by note, the event of each note whose state
/// says that the last collision pass switched it on or off.
pub fn check_note_on(notes: &Vec<Note>, bus: &mut EventBus)
    ensures
        final(bus)@ == old(bus)@ + changed_events(note_views(notes@)),
{
    let ghost pending = bus@;
    let mut j: usize = 0;
    proof {
        assert(note_views(notes@.take(0)) =~= Seq::<NoteView>::empty());
        assert(pending + changed_events(note_views(notes@.take(0))) =~= pending);
    }
    while j < notes.len()
        invariant
            j <= notes@.len(),
            bus@ == pending + changed_events(note_views(notes@.take(j as int))),
        decreases notes@.len() - j,
    {
        if let Some(e) = notes[j].edge_event() {
            bus.emit(e);
        }
        proof {
            let upto = note_views(notes@.take(j as int + 1));
            assert(upto.drop_last() =~= note_views(notes@.take(j as int)));
            assert(upto.last() == notes@[j as int]@);
            assert(bus@ =~= pending + changed_events(upto));
        }
        j += 1;
    }
    proof {
        assert(notes@.take(j as int) =~= notes@);
    }
}

} // verus!
