//! Core pipeline of a command-line speech-to-text front end: request
//! configuration, engine sequencing, and the JSON result envelope.
//!
//! The pipeline is pure: every fact it needs from the outside world (whether
//! a path exists, what the engine reported) is handed in as a plain value,
//! and every effect it decides on (the line to emit, the stream, the exit
//! status) is handed back as a plain value. The thin binary around it only
//! performs the I/O.

pub mod engine;
pub mod envelope;
pub mod pipeline;
pub mod validate;
