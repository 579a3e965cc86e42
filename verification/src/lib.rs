//! Aggregates commit history across repositories, filters commits by an
//! inclusive time window and an optional author substring, merges the results
//! into one chronologically ordered collection, and renders it as plain text
//! in a flat or a daily-grouped layout.
//!
//! Repository access itself (opening a repository, enumerating branches,
//! walking commit ancestry) is a black-box capability of the caller: the
//! caller walks the repositories and hands the raw commit data in as plain
//! values, and everything from record construction to rendering is verified
//! here.

pub mod errors;
pub mod strutil;
pub mod records;
pub mod dates;
pub mod timerange;
pub mod filter;
pub mod aggregate;
pub mod render;
pub mod pipeline;
