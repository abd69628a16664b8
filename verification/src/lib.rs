//! Decision logic of a command line tool that asks a UniFi Protect console to archive video.

pub mod archiver;
pub mod cli;
pub mod client;
pub mod config;
pub mod error;
pub mod exchange;
pub mod formats;
pub mod history;
pub mod json;
pub mod pass;
pub mod promises;
pub mod protect;
pub mod text;
pub mod timestamp;
pub mod url_text;
