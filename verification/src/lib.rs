//! Deterministic core of a two-peer arena shooter that is driven by rollback
//! netcode: input encoding, matchmaking state, and the fixed-order simulation
//! step, all in integer arithmetic so that every peer computes the same state.
//!
//! [`input`] packs and decodes a peer's controls, [`arena`] holds the
//! fixed-point geometry, [`model`] says what a tick is, [`world`] is the
//! state that a tick advances, [`session`] leads into a match and consumes
//! its ticks, [`rendezvous`] writes the address of a room, and [`laws`]
//! states what holds of all of them together. Beside the match, [`env`]
//! reads the settings that pick a scene's camera.

pub mod arena;
pub mod env;
pub mod input;
pub mod laws;
pub mod model;
pub mod rendezvous;
pub mod session;
pub mod text;
pub mod world;
