//! Verified core of a MangaDex manga downloader: file naming, title
//! selection, argument handling, request routing and chapter bookkeeping.

pub mod error;
pub mod text;
pub mod title;
pub mod filename;
pub mod ids;
pub mod query;
pub mod route;
pub mod args;
pub mod metadata;
pub mod chapter;
pub mod images;
pub mod feed;
pub mod dat;
pub mod show;
pub mod settings;
pub mod resolve;
pub mod run;
pub mod logs;
pub mod version;
pub mod paths;
pub mod archive;
pub mod stats;
pub mod laws;
