//! The per-frame logic of two boss mods for a fighting game: one lets a
//! player steer Marx, the other Dracula, while the fighter that stands for
//! the player is hidden inside the boss.
//!
//! The game is reached only through the frame hooks outside this library:
//! they read what a phase of the frame needs ([`command::Sample`]), hand it
//! in as plain values, and carry out the [`command::Command`]s that come
//! back, in order.  Single-precision values cross as their bits
//! ([`measure::Measure`]).

pub mod command;
pub mod dracula;
pub mod dracula_laws;
pub mod marx;
pub mod marx_laws;
pub mod measure;
pub mod player;
