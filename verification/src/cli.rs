use vstd::prelude::*;
use crate::numeral::{fixed_value, parse_fixed, parse_unsigned_fixed, unsigned_fixed_value};
use crate::text::{find_last, last_index, pieces, split, sub_vec, texts, to_chars};

verus! {

/// Digits behind the point that a time in seconds keeps: times are counted in microseconds.
pub const TIME_PLACES: u32 = 6;

/// Digits behind the point that a delay in milliseconds keeps: delays are counted in microseconds.
pub const DELAY_PLACES: u32 = 3;

/// Digits behind the point that a loudness in LUFS keeps: loudness is counted in thousandths of a LUFS.
pub const LOUDNESS_PLACES: u32 = 3;

/// A place to cut the stream, and the delay of the segment that begins there.
#[derive(Debug, Clone, Copy, PartialEq, Eq, Structural)]
pub struct SplitPoint {
    /// Microseconds from the start of the stream.
    pub time: u64,
    /// Microseconds of silence to put before the segment; negative to drop that much of its start.
    pub delay: i64,
}

/// A stretch of the stream in which the quietest moment is to be the cut.
#[derive(Debug, Clone, Copy, PartialEq, Eq, Structural)]
pub struct SplitRange {
    /// Microseconds from the start of the stream.
    pub start: u64,
    /// Microseconds from the start of the stream.
    pub end: u64,
    /// Microseconds of silence to put before the segment; negative to drop that much of its start.
    pub delay: i64,
}

/// What the command line asks for.
#[derive(Debug, Clone)]
pub struct Args {
    pub input: Option<String>,
    pub output: Option<String>,
    pub stream: Option<usize>,
    pub task: Option<Option<String>>,
    /// Microseconds.
    pub initial_delay: i64,
    pub splits: Vec<SplitPoint>,
    pub split_ranges: Vec<SplitRange>,
    pub bitrate: Option<String>,
    /// Thousandths of a LUFS.
    pub silence_threshold: i64,
    pub debug: bool,
    pub ignore_ffmpeg_version: bool,
    pub check_ffmpeg: bool,
    pub inspect: bool,
    pub write_task_file: Option<Option<String>>,
    pub yes: bool,
    pub fit_length: bool,
}

/// Why a split or a split range could not be read.
#[derive(Debug, Clone, Copy, PartialEq, Eq, Structural)]
pub enum SplitSyntaxError {
    /// The text has not the colons that the form asks for.
    Format,
    /// The time of a split is no decimal number, or is negative.
    Time,
    /// The start of a range is no decimal number, or is negative.
    StartTime,
    /// The end of a range is no decimal number, or is negative.
    EndTime,
    /// The delay is no decimal number.
    Delay,
    /// The range does not start before it ends.
    Order,
}

/// What `<seconds>:<delay_ms>` denotes. The last colon parts the two numbers.
pub open spec fn split_point_of(s: Seq<char>) -> Result<SplitPoint, SplitSyntaxError> {
    let pos = last_index(s, ':');
    if pos < 0 {
        Err(SplitSyntaxError::Format)
    } else {
        match unsigned_fixed_value(s.take(pos), TIME_PLACES as nat) {
            None => Err(SplitSyntaxError::Time),
            Some(time) => match fixed_value(s.skip(pos + 1), DELAY_PLACES as nat) {
                None => Err(SplitSyntaxError::Delay),
                Some(delay) => Ok(SplitPoint { time, delay }),
            },
        }
    }
}

/// What `<start_seconds>:<end_seconds>:<delay_ms>` denotes.
pub open spec fn split_range_of(s: Seq<char>) -> Result<SplitRange, SplitSyntaxError> {
    let parts = pieces(s, ':');
    if parts.len() != 3 {
        Err(SplitSyntaxError::Format)
    } else {
        match unsigned_fixed_value(parts[0], TIME_PLACES as nat) {
            None => Err(SplitSyntaxError::StartTime),
            Some(start) => match unsigned_fixed_value(parts[1], TIME_PLACES as nat) {
                None => Err(SplitSyntaxError::EndTime),
                Some(end) => match fixed_value(parts[2], DELAY_PLACES as nat) {
                    None => Err(SplitSyntaxError::Delay),
                    Some(delay) => if start >= end {
                        Err(SplitSyntaxError::Order)
                    } else {
                        Ok(SplitRange { start, end, delay })
                    },
                },
            },
        }
    }
}

/// Reads a split written as `<seconds>:<delay_ms>`.
pub fn parse_split(s: &str) -> (r: Result<SplitPoint, SplitSyntaxError>)
    ensures
        r == split_point_of(s@),
{
    let chars = to_chars(s);
    let pos = match find_last(&chars, ':') {
        Some(pos) => pos,
        None => {
            return Err(SplitSyntaxError::Format);
        },
    };
    let time_text = sub_vec(&chars, 0, pos);
    let delay_text = sub_vec(&chars, pos + 1, chars.len());
    assert(time_text@ =~= s@.take(pos as int));
    assert(delay_text@ =~= s@.skip(pos + 1));
    let time = match parse_unsigned_fixed(&time_text, TIME_PLACES) {
        Some(time) => time,
        None => {
            return Err(SplitSyntaxError::Time);
        },
    };
    let delay = match parse_fixed(&delay_text, DELAY_PLACES) {
        Some(delay) => delay,
        None => {
            return Err(SplitSyntaxError::Delay);
        },
    };
    Ok(SplitPoint { time, delay })
}

/// Reads a split range written as `<start_seconds>:<end_seconds>:<delay_ms>`.
pub fn parse_split_range(s: &str) -> (r: Result<SplitRange, SplitSyntaxError>)
    ensures
        r == split_range_of(s@),
{
    let chars = to_chars(s);
    let parts = split(&chars, ':');
    if parts.len() != 3 {
        return Err(SplitSyntaxError::Format);
    }
    assert(texts(parts@)[0] == parts@[0]@);
    assert(texts(parts@)[1] == parts@[1]@);
    assert(texts(parts@)[2] == parts@[2]@);
    let start = match parse_unsigned_fixed(&parts[0], TIME_PLACES) {
        Some(start) => start,
        None => {
            return Err(SplitSyntaxError::StartTime);
        },
    };
    let end = match parse_unsigned_fixed(&parts[1], TIME_PLACES) {
        Some(end) => end,
        None => {
            return Err(SplitSyntaxError::EndTime);
        },
    };
    let delay = match parse_fixed(&parts[2], DELAY_PLACES) {
        Some(delay) => delay,
        None => {
            return Err(SplitSyntaxError::Delay);
        },
    };
    if start >= end {
        return Err(SplitSyntaxError::Order);
    }
    Ok(SplitRange { start, end, delay })
}

} // verus!
