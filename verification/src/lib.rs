//! Time-indexed lookup of recorded track positions.
//!
//! A track document is normalized here, read by a reader outside this
//! library, and made into tracks, segments and waypoints here. The waypoints
//! are put into one sequence in order of time. A session then answers lines
//! that ask for a time of day with the latest waypoint recorded at or before
//! that time, on the local day on which the track began.

pub mod clock;
pub mod decoder;
pub mod error;
pub mod formatter;
pub mod index;
pub mod input;
pub mod instant;
pub mod model;
pub mod normalizer;
pub mod query;
pub mod report;
pub mod roundtrip;
pub mod session;
