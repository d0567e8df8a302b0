//! The records that the video service answers a search with.
pub mod video;
