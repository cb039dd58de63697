//! A POSIX-like virtual filesystem layer: inode handles over a block-addressed
//! arena, flat directory entries with tombstone deletion, hard-link reference
//! counting, open-file objects with cursors, and the syscall-facing surface.

pub mod dirent;
pub mod disk;
pub mod efs;
pub mod laws;
pub mod links;
pub mod osfile;
pub mod syscall;
pub mod vfs;
