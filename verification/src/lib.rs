//! Resampling and adaptive framing of live PCM audio.
//!
//! The crate holds the in-memory part of an audio streaming pipeline: the
//! channel layout conversions, the windowing in front of a rate converter,
//! the one-time choice of a frame size, and the slicing of the converted
//! stream into frames of that size.

pub mod blocks;
pub mod config;
pub mod focus;
pub mod framer;
pub mod layout;
pub mod pipeline;
pub mod resampler;
pub mod stream;
