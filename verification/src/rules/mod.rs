//! The rules: their catalog, their checks and the engine that runs them.

pub mod engine;
pub mod implementations;
pub mod registry;
