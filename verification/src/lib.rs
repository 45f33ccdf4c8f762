//! Core of a terminal snake arcade game.
//!
//! The crate holds the verified game logic: the fixed-tick snake simulation,
//! the key-to-action resolver, the ranked leaderboard table, and the byte-level
//! side of the self-persisting score store that lives inside a reserved
//! section of the host executable. Terminal rendering, input capture and the
//! file handling around persistence are left to the embedding application.

pub mod app;
pub mod assets;
pub mod game;
pub mod input;
pub mod leaderboard;
pub mod menu;
pub mod persist;
