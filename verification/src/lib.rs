//! Procedural mystery generation and the note / connection deduction model of a
//! small detective game: a victim, suspects, clues with examinable markers, the
//! connections between the notes they carry, and the player's deduction state.

pub mod palette;
pub mod clue;
pub mod connection;
pub mod constants;
pub mod displays;
pub mod grid;
pub mod keys;
pub mod links;
pub mod log;
pub mod map;
pub mod menu;
pub mod movement;
pub mod note;
pub mod options;
pub mod placement;
pub mod player_notes;
pub mod pools;
pub mod random;
pub mod story;
pub mod suspect;
pub mod text;
pub mod time;
pub mod victim;
pub mod web;
