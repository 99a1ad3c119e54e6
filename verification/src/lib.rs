//! A chorded-keyboard engine: a key registry, a configuration compiler that
//! builds chord lookup tables, and the state machine that accumulates held
//! participant keys into a bitmask and fires the bound output on full release.

pub mod chordkb;
pub mod config;
pub mod keys;
pub mod laws;
