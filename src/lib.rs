//! Global keyboard shortcuts: parsing chord texts, keeping one operating
//! system registration per chord, the store's rules for definitions, matching
//! fired chords to definitions, and planning the actions they run.
pub mod actions;
pub mod chord;
pub mod config;
pub mod definition;
pub mod execution;
pub mod facade;
pub mod registry;
pub mod repository;
pub mod settings;
