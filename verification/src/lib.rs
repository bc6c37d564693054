//! Verified core of a marine-bulletin retrieval tool.
//!
//! The library derives a bearer token from a session cookie, builds the
//! report request URLs, renders raw or pretty report content, and computes
//! the timestamped artifact filenames.  All I/O (HTTP, filesystem, logging,
//! scheduling) lives outside the library; callers hand in the fetched
//! bodies and the current time and get back the artifacts to write.

pub mod codec;
pub mod timefmt;
pub mod errors;
pub mod mf;
pub mod mf_config;
pub mod format;
pub mod json;
pub mod strutil;
