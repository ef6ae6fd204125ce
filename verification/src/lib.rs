//! Core runtime for an interactive application that partitions stateful
//! subsystems ("servers": audio, draw, update) across runners, relocates a
//! server between runners at runtime, paces each runner's loop to a target
//! frequency with drift correction, and offers a deferred, cancellable
//! dispatch registry.
//!
//! Everything here works on plain values: the platform collaborators (window,
//! rendering context, threads, channels) live with the embedding program,
//! which drives these state machines and carries out the effects they decide.

pub mod clock;
pub mod container;
pub mod dispatch;
pub mod error;
pub mod events;
pub mod executor;
pub mod graphics;
pub mod runner;
pub mod scene;
pub mod server;
pub mod test_tree;
pub mod ui;
