//! Songs, the play queue, song metadata and the names of song files.
pub mod downloader;
pub mod info;
pub mod song;
