//! Plugins for the music player daemon.

pub mod playlist;
pub mod songs;
