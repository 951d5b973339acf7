//! Inspection of system-profile generations: parsing the toolchain's
//! generation listings and classifying the changes between two generations.
pub mod text;
pub mod error;
pub mod timestamp;
pub mod generation;
pub mod listing;
pub mod service;
pub mod diff;
pub mod laws;
pub mod marked;
