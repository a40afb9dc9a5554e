//! The decisions of a mod launcher and of the mod host that it loads into a game.

pub mod launcher;
pub mod mod_host;
pub mod script;
pub mod text;
pub mod text_laws;
