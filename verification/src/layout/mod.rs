//! Overlay layouts: game state in, overlay commands out.

pub mod placement_laws;
pub mod scoreboard;
pub mod scoreboard_laws;
