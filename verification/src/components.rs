//! Component values that the engine attaches to entities.

pub mod shape;
