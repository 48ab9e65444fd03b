//! Installation engine for a dotfiles deployment tool: lexical path
//! resolution, mapping parsing, and the per-item install protocol
//! (pre-hooks, link creation, post-hooks) as a verified step machine.

pub mod args;
pub mod config;
pub mod errors;
pub mod install;
pub mod traits;
pub mod ui;
pub mod utils;
