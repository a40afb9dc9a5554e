//! The mod host: overriding properties of the game that it was loaded into.

pub mod apply;
pub mod apply_laws;
pub mod catch_up;
pub mod catch_up_courses;
pub mod game;
pub mod game_properties;
pub mod overrides;
pub mod runtime;
