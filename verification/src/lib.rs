//! A small solar system of stars, planets and moons, with a save and restore
//! pipeline: capture the bodies into a snapshot, write it as text, read it
//! back, and rebuild the bodies under fresh identifiers.

pub mod error;
pub mod world;
pub mod prefab;
pub mod snapshot;
pub mod format;
pub mod pipeline;
pub mod laws;
