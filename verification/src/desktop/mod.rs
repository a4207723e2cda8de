//! The desktop edition of the tool: the same backups and drives, with its own
//! rsync options, progress reading, snapshot naming and screens.
pub mod backup;
pub mod drives;
pub mod format;
pub mod ui;
