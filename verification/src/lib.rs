//! Sorts the direct entries of a source directory into a date-partitioned
//! hierarchy `target/YYYY/MM/DD/<name>` derived from each entry's
//! modification time, copying or moving each file.
//!
//! This crate holds the verified core: the directory-creation cache, the
//! entry classifier (including the rendering of the date path segments),
//! and the result aggregator. The surrounding binary performs the actual
//! filesystem work and feeds the results back in as plain values.

pub mod classify;
pub mod dirtree;
pub mod errors;
pub mod report;
