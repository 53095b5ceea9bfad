//! Verified core of an APK downloader: text handling, page scraping rules,
//! download planning, bundle selection and the terminal UI state machine.

pub mod text;
pub mod util;
pub mod scrape;
pub mod search;
pub mod download;
pub mod extract;
pub mod config;
pub mod tui;
pub mod cli;
