//! A verified core for a small command-line note manager.
pub mod text;
pub mod numeric;
pub mod model;
pub mod time;
pub mod config;
pub mod theme;
pub mod output;
pub mod notefile;
pub mod seqs;
pub mod order;
pub mod storage;
pub mod handle;
pub mod input;
pub mod laws;
