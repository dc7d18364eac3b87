//! Eye-tracked foveated encoding: the decisions between a gaze sample and the foveation centers
//! that an encoder and a decoder share for one video frame.
//!
//! - [`external_gaze`] decodes the UDP gaze protocol and decides which samples are current.
//! - [`foveated_encoding`] filters gaze, holds it over short gaps and keeps the centers of frames.
//! - [`foveation_metadata`] keeps only the centers that the encoder reports.
//! - [`projection`] holds the rules that turn a projected gaze into a center shift.
//! - [`center_history`] remembers centers by frame timestamp.
//! - [`gaze`] has the gaze samples, [`binary32`] and [`duration`] the numbers.
//! - [`laws`] says of each operation what a call of it gives.
//!
//! Floating-point numbers appear here as their bit patterns. The library compares them exactly;
//! callers do the arithmetic and hand in the results.

pub mod binary32;
pub mod center_history;
pub mod duration;
pub mod external_gaze;
pub mod foveated_encoding;
pub mod foveation_metadata;
pub mod gaze;
pub mod laws;
pub mod projection;
