//! Round-robin multiplexer control for reading many analog sources through a
//! small set of digital select lines.

pub mod multiplexer;
