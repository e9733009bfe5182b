//! Core of a single-page task-list manager: an in-memory store of text items
//! with completion flags, a staged draft for the next item, and a derived
//! projection (active items, outstanding count, completion flags) recomputed
//! from each state snapshot.

pub mod laws;
pub mod model;
pub mod project;
pub mod store;
