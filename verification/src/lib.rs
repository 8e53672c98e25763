//! Data-oriented storage core of a small game engine: entity identities and
//! per-entity components kept in sparse sets, with the plain configuration
//! and shader bookkeeping types that surround them.

pub mod components;
pub mod entity;
pub mod game_engine;
pub mod renderer;
pub mod window;
