//! Timing logic behind a Dota 2 game-clock overlay: the event table of a
//! patch, the recurring per-minute timings, the countdown frames that the
//! overlay draws, and the configuration that places it on screen.

pub mod clock;
pub mod config;
pub mod events;
pub mod gsi;
pub mod icons;
pub mod layout;
pub mod patches;
pub mod pixels;
pub mod text;
