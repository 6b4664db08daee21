//! The musical model behind a small music-notation editor: pitches, note
//! durations, bars and staves, the editing operations on them, the
//! interaction state machine of the staff editor and MIDI message building.

pub mod pitch;
pub mod note_or_rest;
pub mod bar;
pub mod staff;
pub mod midi;
pub mod fraction;
pub mod note;
pub mod canvas_el;
pub mod pages;
pub mod playback;
