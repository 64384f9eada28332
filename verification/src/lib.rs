//! Verified core of the illuTag image library: text normalisation, tag
//! dictionaries, path rewriting, folder rules and progress bookkeeping.
//!
//! Functions that build, split or measure file paths take the rules of the
//! system they run on as a [`paths::PathHost`]: on Windows `\` and `/` both
//! separate, `\` joins and `C:` is a drive prefix; on Unix `/` alone separates
//! and joins.

pub mod batch;
pub mod chars;
pub mod clock;
pub mod control;
pub mod csv;
pub mod data_dir;
pub mod devtools;
pub mod dict;
pub mod export;
pub mod folder_sync;
pub mod gallery;
pub mod known_paths;
pub mod links;
pub mod model;
pub mod paste;
pub mod paths;
pub mod payload;
pub mod progress;
pub mod recycle;
pub mod rules;
pub mod runtime_paths;
pub mod search;
pub mod services;
pub mod sheet;
pub mod sources;
pub mod tag_browser;
pub mod tagging;
pub mod text;
pub mod thumbnails;
pub mod unique_paths;
pub mod user_tags;
pub mod window_state;
pub mod worker;
