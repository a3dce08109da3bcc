//! Streaming line reassembly and timestamped dual-sink logging for a serial
//! byte stream.
//!
//! The crate holds the decisions of a serial line logger and proves them:
//! how an arbitrarily fragmented byte stream is cut into newline-terminated
//! lines, how a line is prefixed with a fixed-width local timestamp, which
//! sinks receive which bytes, and how the read loop reacts to each outcome of
//! opening, reading and writing. Performing the reads and writes is left to
//! the caller.

pub mod clock;
pub mod lines;
pub mod listing;
pub mod session;
pub mod sink;
pub mod text;
pub mod timestamp;
