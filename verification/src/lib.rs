//! On-access content scrubber core: a recursive directory-watch registry and a
//! streaming signature scanner that detects byte signatures across chunk
//! boundaries.

pub mod detector;
pub mod pattern;
pub mod reader;
pub mod source;
pub mod watch;
