//! Collision prediction from a stream of depth frames, anchored by a
//! time-of-flight range reading.
//!
//! Units used throughout the library: distances in micrometres, capture
//! times in microseconds, edge timestamps in nanoseconds, pixel coordinates
//! as integers, shape similarity in thousandths (1000 is identical).
pub mod calibration;
pub mod pulse;
pub mod record;
pub mod predictor;
pub mod tracker;
