//! A programmable HTTP mocking server library.
//!
//! Requests are matched against declarative rules (method, path regex, query
//! parameters, headers, GraphQL operation name); a matching rule selects a
//! response from a weighted, shuffled, round-robin rotation. The library also
//! converts HTTP Archive captures into the same declarative configuration.
//!
//! All I/O (file reads, the HTTP listener, timers) lives outside this crate;
//! the functions here work on plain values and carry contracts for what they
//! compute.

pub mod backend;
pub mod cli;
pub mod config;
pub mod digests;
pub mod entropy;
pub mod errors;
pub mod har;
pub mod matcher;
pub mod plugin_defs;
pub mod regexes;
pub mod rotation;
pub mod strutil;
pub mod templates;
pub mod textcodec;
