//! Editing one audio stream of a media container: cutting it at split
//! points, delaying or trimming each segment, joining the segments again,
//! fitting the result to the length of the original, and putting it back in
//! the place of the original stream.
//!
//! The library plans the work and reads what the media engine reports; it
//! starts no process and touches no file. Times are counted in microseconds
//! and loudness in thousandths of a LUFS, so that every rule is stated over
//! integers.
//!
//! - [`text`] and [`numeral`]: reading and writing text and decimal numbers.
//! - [`pattern`], [`json`] and [`util`]: regular expressions, JSON values and paths.
//! - [`cli`] and [`task`]: what is asked for, and how the job is settled from it.
//! - [`ffmpeg`]: the state of the engine, and the quietest moment of a range.
//! - [`plan`]: the splits in the order of time, with the delay of each segment.
//! - [`probe`] and [`audio_metadata`]: the streams of a container.
//! - [`audio_processing`]: the requests that cut, join, fit, encode and remux.
//! - [`workflow`]: the small decisions of a run.

pub mod text;
pub mod numeral;
pub mod pattern;
pub mod json;
pub mod util;
pub mod cli;
pub mod ffmpeg;
pub mod plan;
pub mod probe;
pub mod audio_metadata;
pub mod audio_processing;
pub mod task;
pub mod workflow;
