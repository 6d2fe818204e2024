//! Storyboard objects and their commands.
pub mod types;
pub mod cmds;
pub mod sprites;
