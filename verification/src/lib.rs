//! Piano-roll logic for a falling-notes piano visualizer: keyboard layout,
//! songs and their playback clock, interaction state, particle seeding,
//! the note-name glyph atlas and sample selection for audio.

pub mod keyboard;
pub mod note;
pub mod playback;
pub mod control;
pub mod particles;
pub mod atlas;
pub mod samples;
