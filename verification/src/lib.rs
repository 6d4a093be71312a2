//! Pure logic of a small audio-download front end: argument lists handed to
//! the downloader, interpretation of its output, and the local web page with
//! its job-progress endpoint.

pub mod cli;
pub mod error;
pub mod text;
pub mod ytdlp;
pub mod ui;
pub mod jobs;
pub mod http;
pub mod steps;
