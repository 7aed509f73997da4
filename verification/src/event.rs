//! Note events and the bus that carries them, in order, from the collision
//! pass to whoever plays them.

use vstd::prelude::*;

verus! {

/// A note started sounding. `pitch` is the note's pitch at that moment.
#[derive(Clone, Copy, Debug, PartialEq, Eq, Structural)]
pub struct NoteOnEvent {
    pub note: usize,
    pub pitch: u8,
}

/// A note stopped sounding.
#[derive(Clone, Copy, Debug, PartialEq, Eq, Structural)]
pub struct NoteOffEvent {
    pub note: usize,
}

/// One fact about one note, produced and consumed within a frame.
#[derive(Clone, Copy, Debug, PartialEq, Eq, Structural)]
pub enum NoteEvent {
    On(NoteOnEvent),
    Off(NoteOffEvent),
}

/// What is pending once `event` has been emitted after `pending`.
pub open spec fn after_emit(pending: Seq<NoteEvent>, event: NoteEvent) -> Seq<NoteEvent> {
    pending.push(event)
}

/// What a drain hands out, and what is pending afterwards.
pub open spec fn drained(pending: Seq<NoteEvent>) -> (Seq<NoteEvent>, Seq<NoteEvent>) {
    (pending, Seq::empty())
}

/// What is pending once each of `events` has been emitted in turn.
pub open spec fn after_emit_all(pending: Seq<NoteEvent>, events: Seq<NoteEvent>) -> Seq<NoteEvent>
    decreases events.len(),
{
    if events.len() == 0 {
        pending
    } else {
        after_emit(after_emit_all(pending, events.drop_last()), events.last())
    }
}

/// Draining a bus that has just been drained, with nothing emitted in
/// between, hands out nothing.
pub proof fn lemma_second_drain_is_empty(pending: Seq<NoteEvent>)
    ensures
        drained(drained(pending).1).0 == Seq::<NoteEvent>::empty(),
        drained(drained(pending).1).1 == Seq::<NoteEvent>::empty(),
{
}

/// Events leave the bus in the order in which they were emitted: nothing is
/// reordered, merged or dropped.
pub proof fn lemma_drain_keeps_emission_order(pending: Seq<NoteEvent>, events: Seq<NoteEvent>)
    ensures
        after_emit_all(pending, events) == pending + events,
        drained(after_emit_all(pending, events)).0 == pending + events,
    decreases events.len(),
{
    if events.len() == 0 {
        assert(pending + events =~= pending);
    } else {
        lemma_drain_keeps_emission_order(pending, events.drop_last());
        assert((pending + events.drop_last()).push(events.last()) =~= pending + events);
    }
}

/// An append-and-drain buffer of note events.
pub struct EventBus {
    queue: Vec<NoteEvent>,
}

impl View for EventBus {
    type V = Seq<NoteEvent>;

    /// The pending events, oldest first.
    closed spec fn view(&self) -> Seq<NoteEvent> {
        self.queue@
    }
}

impl EventBus {
    /// A bus with nothing pending.
    pub fn new() -> (bus: Self)
        ensures
            bus@ == Seq::<NoteEvent>::empty(),
    {
        EventBus { queue: Vec::new() }
    }

    /// Enqueues `event` behind everything already pending.
    pub fn emit(&mut self, event: NoteEvent)
        ensures
            final(self)@ == after_emit(old(self)@, event),
    {
        self.queue.push(event);
    }

    /// Hands out everything emitted since the last drain, oldest first, and
    /// leaves the bus empty.
    pub fn drain(&mut self) -> (delivered: Vec<NoteEvent>)
        ensures
            (delivered@, final(self)@) == drained(old(self)@),
    {
        let mut delivered: Vec<NoteEvent> = Vec::new();
        std::mem::swap(&mut self.queue, &mut delivered);
        delivered
    }

    /// How many events are pending.
    pub fn len(&self) -> (n: usize)
        ensures
            n == self@.len(),
    {
        self.queue.len()
    }

    /// Whether nothing is pending.
    pub fn is_empty(&self) -> (empty: bool)
        ensures
            empty == (self@.len() == 0),
    {
        self.queue.len() == 0
    }
}

} // verus!
