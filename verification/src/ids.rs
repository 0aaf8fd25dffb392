//! Identifiers that the game assigns to skills and effects.

pub mod skills;
