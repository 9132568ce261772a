//! A save-state backup engine for games: it mirrors live save trees into a
//! staging tree with a checksum-verified sync, decides when backups run
//! (grace time after changes, auto-backup rate limit, exit backup), and
//! serialises backup and restore requests.

pub mod config;
pub mod console;
pub mod engine;
pub mod filter;
pub mod hash;
pub mod model;
pub mod naming;
pub mod pid;
pub mod relpath;
pub mod sync;
pub mod tui;
pub mod ui;
pub mod watch;
pub mod worker;
