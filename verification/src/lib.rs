//! Backer-Upper: the logic of a removable-drive backup tool.
//!
//! The library covers what the tool decides and computes: the rsync command
//! lines of backup jobs and the reading of rsync's progress output, the choice
//! of removable drives from `lsblk`'s JSON, the udisks2 object paths, the
//! steps of formatting a drive and the safety checks before them, and the
//! state kept between the screens and commands of the application. Running
//! commands, D-Bus calls, files and the user interface stay with the program.
pub mod text;
pub mod paths;
pub mod config;
pub mod backup;
pub mod bytes;
pub mod drives;
pub mod format;
pub mod commands;
pub mod desktop;
