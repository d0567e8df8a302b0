//! A terminal music player's core: command parsing, configuration,
//! the play queue and the decisions of its user interface.
pub mod helper;
pub mod music;
pub mod text;
pub mod ui;
pub mod wave;
pub mod youtube;
