//! The kernel's file system: a TAR archive and the open-file table.
pub mod tar;
pub mod vfs;
