//! The launcher: starting the game, loading the mod host into it and relaying its messages.

pub mod attach;
pub mod attach_courses;
pub mod attach_laws;
pub mod injection;
pub mod launch;
pub mod messages;
pub mod stage;
