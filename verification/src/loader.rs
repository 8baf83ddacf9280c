//! What the loader of mods shares with the engine: events and settings.

pub mod log;
pub mod setting;
