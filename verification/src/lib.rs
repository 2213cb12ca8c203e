//! Planning and bookkeeping for converting a music library to the
//! sample rates, bit depths and containers that DJ hardware plays.
//!
//! The library holds the conversion tiers, the quality checks that warn
//! before a wasteful conversion, the decisions that drive a conversion
//! (resampling, channel layout, buffer accounting), the command line of the
//! external encoder and the parsers of its output.

pub mod text;
pub mod profile;
pub mod ffmpeg;
pub mod quality;
pub mod conversion;
pub mod settings;
