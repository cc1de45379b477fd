//! User-profile synchronization engine for a multi-user launcher.
//!
//! Several local users share one global application installation. Each user
//! owns a private profile directory; a fixed set of managed files is mirrored
//! between the global directory and the active user's profile. This crate
//! verifies that engine against an explicit model of the relevant part of the
//! file system: each directory is a list of (file name, contents) entries with
//! unique names. The shell around the engine performs the real file-system
//! reads and writes that the model prescribes.

pub mod directory;
pub mod error;
pub mod laws;
pub mod sync;
pub mod user_model;
