//! Core of a two-track rhythm game: a frame-stamped note timeline is played
//! back tick by tick against edge-triggered button input, producing a score,
//! a combo streak and a letter grade, which is then merged into a small
//! per-song leaderboard guarded by a checksum for persistence.
//!
//! `song_data` and `songs` hold the timeline model and the song table;
//! `playback` drives a timeline tick by tick and judges the notes; `score`
//! turns combos into points and accuracy into a grade; `save_data` keeps the
//! per-song leaderboards and `persist` their checksummed byte image; and
//! `session` is the state machine of menus, playing, pause and results that
//! ties them together. `player` tracks the player character's animation.

pub mod persist;
pub mod playback;
pub mod player;
pub mod save_data;
pub mod score;
pub mod session;
pub mod song_data;
pub mod songs;
