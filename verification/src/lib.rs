//! A geometric step sequencer: playheads sweep across a field of rectangular
//! note regions and every overlap is turned into note-on / note-off events.
//!
//! All arithmetic is on whole numbers. Positions and sizes are counted in
//! sub-units, a millionth of a field unit each; speeds in field units per
//! second; time in microseconds. A speed times a time is therefore a
//! distance in sub-units, without rounding.
//!
//! - [`pitch`] maps a height in the field to a MIDI pitch.
//! - [`geometry`] holds rectangles and their strict overlap test.
//! - [`note`] holds the note regions and the collision state machine.
//! - [`playhead`] holds the playheads, their motion and the collision pass.
//! - [`event`] holds the note events and the bus that carries them.
//! - [`world`] ties these together: a session's playheads and notes and the
//!   step that advances them by one frame.
//! - [`mouse_input`], [`midi`], [`random`], [`sequence`] and [`cartesian`]
//!   serve the program around the world: pointer editing, MIDI messages,
//!   chance, settings and a grid cursor.

pub mod cartesian;
pub mod event;
pub mod geometry;
pub mod midi;
pub mod mouse_input;
pub mod note;
pub mod pitch;
pub mod playhead;
pub mod random;
pub mod sequence;
pub mod world;
