//! Verified core of a desktop backup-folder watcher: the rules that decide
//! whether a backup is healthy, which backups a license entitles the user to,
//! how signed license receipts are checked, and when work is due.

pub mod text;
pub mod models;
pub mod time;
pub mod sampling;
pub mod checker;
pub mod hashing;
pub mod db;
pub mod update_check;
pub mod license;
pub mod activation;
pub mod notify;
pub mod commands;
pub mod scheduler;
