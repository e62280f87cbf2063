//! A typing-speed exercise engine: exercise generation and layout, keystroke
//! validation with error accounting, timing and performance statistics.
//!
//! - [`text`]: characters, white space, words.
//! - [`layout`]: packing words into centred lines.
//! - [`sample`]: drawing the words of an exercise from the word pool.
//! - [`validate`]: finding mismatches and counting errors.
//! - [`input`]: keys, edits, and what an edit does to the typed text.
//! - [`stopwatch`]: the time of an exercise.
//! - [`stats`]: words per minute and accuracy.
//! - [`render`]: what a frame shows.
//! - [`args`]: the command line.
//! - [`session`]: a typing session, turn by turn.

pub mod args;
pub mod input;
pub mod layout;
pub mod render;
pub mod sample;
pub mod session;
pub mod stats;
pub mod stopwatch;
pub mod text;
pub mod validate;
