//! A registry of filesystem paths with an expiration date.
//!
//! The registry is a log of text lines, one record per line. This crate holds
//! the rules of that log: how a record is written and read, when it counts as
//! expired, how entries are added, looked up, listed and removed. Reading and
//! writing the log file itself is left to the caller, which hands the lines in
//! and takes them back.

pub mod cli;
pub mod error;
pub mod file;
pub mod json;
pub mod time;
