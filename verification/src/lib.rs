//! Reading and writing osu! beatmap files (`.osu`) and storyboard files (`.osb`).
pub mod text;
pub mod types;
pub mod decimal;
pub mod helper;
pub mod section;
pub mod hitobjects;
pub mod general;
pub mod editor;
pub mod metadata;
pub mod difficulty;
pub mod colours;
pub mod timingpoints;
pub mod events;
pub mod osb;
pub mod sections;
pub mod osu_file;
pub mod compare;
pub mod laws;
pub mod section_laws;
pub mod file_laws;
pub mod slider_laws;
pub mod event_laws;
pub mod command_laws;
pub mod nested_laws;
pub mod osb_laws;
pub mod trim_laws;
pub mod number_laws;
pub mod field_laws;
pub mod key_laws;

pub use compare::{osu_str_eq, osu_str_trimmer};
pub use types::{
    Error, Integer, Position, Version, VersionedFromStr, VersionedToString, LATEST_VERSION,
    MIN_VERSION,
};
