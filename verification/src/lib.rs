//! Finding media files on the volumes of a machine and doing one of four
//! things with them: listing, copying, archiving, or hunting duplicates.
//!
//! The library holds the decisions; reading directories and files, and
//! changing them, is left to the program that uses it.
//!
//! - `system` and `cli` turn the machine's volumes and the user's wish into
//!   the plan of a run.
//! - `filters`, `magic` and `classify` decide whether a file is wanted.
//! - `walk` steers a depth-first walk of a directory tree.
//! - `printer`, `copy` and `archive` are the sinks that list, copy and
//!   store.
//! - `hasher` and `index` are the duplicate engine; `run` states what a
//!   whole run of it comes to.
//! - `error`, `logger` and `text` serve the others.

pub mod archive;
pub mod classify;
pub mod cli;
pub mod copy;
pub mod error;
pub mod filters;
pub mod hasher;
pub mod index;
pub mod logger;
pub mod magic;
pub mod printer;
pub mod run;
pub mod system;
pub mod text;
pub mod walk;
