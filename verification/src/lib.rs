//! Converts a tracker module's pattern data into a simplified
//! note/duration text score.
//!
//! The library maps raw pitch values to note names, flattens the four
//! channels of each row into a single note token, detects the
//! pattern-break command, and run-length-encodes consecutive identical
//! notes into `NOTE COUNT` pairs, one output line per played pattern.

pub mod digits;
pub mod notes;
pub mod rows;
pub mod score;
pub mod tables;
