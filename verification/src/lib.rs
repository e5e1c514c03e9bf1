//! Rules engine for a turn-based wargame on a 10x10 board between two
//! playing colors, with a neutral third color for inert obstacles.
//!
//! The crate covers the move-legality engine, the combat/action resolver,
//! the win checker, the random action selector and the turn state machine.
//! Rendering and input belong to the surrounding program.

pub mod board;
pub mod game;
pub mod moves;
pub mod occupancy;
pub mod resolve;
pub mod selector;
pub mod win;
