//! A small session library for tracking a pair of bounded tallies across
//! rounds, with commit / rollback / clear history semantics.
//!
//! The heart of the crate is the [`brain`] module: a state machine that owns
//! the current counter pair and a linear history of committed snapshots, and
//! applies discrete events to move between states. The [`codec`] module gives
//! the session a byte-level snapshot format with a proved round trip, and
//! [`app`] holds the aggregate that a user interface renders each frame.
#![allow(non_snake_case)]

pub mod app;
pub mod brain;
pub mod codec;
