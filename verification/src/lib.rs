//! A remote directory tree projected into the kernel's inode and path model.
//!
//! The crate keeps the table that ties inode numbers to remote paths, merges
//! remote listings into it, and decides what each filesystem request is
//! answered with. It performs no I/O: the caller fetches listings and talks to
//! the kernel.

pub mod api;
pub mod attr;
pub mod error;
pub mod fs;
pub mod laws;
pub mod mock;
pub mod path;
pub mod registry;
