//! What each command decides and computes, apart from reading and writing
//! files and talking to the terminal.
pub mod add;
pub mod edit;
pub mod list;
pub mod search;
pub mod import;
pub mod export;
pub mod category;
pub mod tag;
pub mod pin;
pub mod archive;
pub mod done;
pub mod delete;
pub mod show;
pub mod stats;
pub mod log;
pub mod config;
