use vstd::prelude::*;
use crate::cli::{Args, SplitPoint, SplitRange};
use crate::text::{optional_text, same_text};

verus! {

/// The threshold that is taken where none is asked for, in thousandths of a LUFS.
pub const DEFAULT_SILENCE_THRESHOLD: i64 = -95_000;

/// A job as a task file describes it. Every part of it may be missing.
#[derive(Debug, Clone, PartialEq, Eq, Default)]
pub struct Task {
    pub input: Option<String>,
    pub output: Option<String>,
    pub stream: Option<usize>,
    /// Microseconds.
    pub initial_delay: Option<i64>,
    pub splits: Vec<SplitPoint>,
    pub split_ranges: Vec<SplitRange>,
    pub bitrate: Option<String>,
    /// Thousandths of a LUFS.
    pub silence_threshold: Option<i64>,
    pub fit_length: Option<bool>,
}

/// A job with everything settled that the command line and the task file leave open.
#[derive(Debug, Clone, PartialEq, Eq)]
pub struct Settings {
    pub input: String,
    pub output: String,
    pub stream: usize,
    /// Microseconds.
    pub initial_delay: i64,
    pub bitrate: Option<String>,
    /// Thousandths of a LUFS.
    pub silence_threshold: i64,
    pub splits: Vec<SplitPoint>,
    pub split_ranges: Vec<SplitRange>,
    pub fit_length: bool,
}

/// What is wrong with a job as it was asked for.
#[derive(Debug, Clone, Copy, PartialEq, Eq, Structural)]
pub enum ConfigError {
    /// Neither the command line nor the task file names an input.
    MissingInput,
    /// Neither the command line nor the task file names an output.
    MissingOutput,
    /// The output would be written over the input.
    SameInputAndOutput,
    /// Neither the command line nor the task file names a stream.
    MissingStream,
}

/// The first of two texts that is there.
pub open spec fn first_text(first: Option<String>, second: Option<String>) -> Option<Seq<char>> {
    match first {
        Some(s) => Some(s@),
        None => optional_text(second),
    }
}

/// The input that the task file names.
pub open spec fn task_input(task: Option<&Task>) -> Option<String> {
    match task {
        Some(t) => t.input,
        None => None,
    }
}

/// The output that the task file names.
pub open spec fn task_output(task: Option<&Task>) -> Option<String> {
    match task {
        Some(t) => t.output,
        None => None,
    }
}

/// The bit rate that the task file names.
pub open spec fn task_bitrate(task: Option<&Task>) -> Option<String> {
    match task {
        Some(t) => t.bitrate,
        None => None,
    }
}

/// The stream that is asked for: that of the command line before that of the task file.
pub open spec fn chosen_stream(args: Args, task: Option<&Task>) -> Option<usize> {
    match args.stream {
        Some(s) => Some(s),
        None => match task {
            Some(t) => t.stream,
            None => None,
        },
    }
}

/// The delay of the first segment: that of the command line where it is not
/// zero, else that of the task file, else zero.
pub open spec fn chosen_initial_delay(args: Args, task: Option<&Task>) -> i64 {
    if args.initial_delay != 0 {
        args.initial_delay
    } else {
        match task {
            Some(t) => match t.initial_delay {
                Some(d) => d,
                None => 0,
            },
            None => 0,
        }
    }
}

/// The threshold of silence: that of the command line where it is not the
/// default, else that of the task file, else the default.
pub open spec fn chosen_threshold(args: Args, task: Option<&Task>) -> i64 {
    if args.silence_threshold != DEFAULT_SILENCE_THRESHOLD {
        args.silence_threshold
    } else {
        match task {
            Some(t) => match t.silence_threshold {
                Some(d) => d,
                None => DEFAULT_SILENCE_THRESHOLD,
            },
            None => DEFAULT_SILENCE_THRESHOLD,
        }
    }
}

/// The splits: those of the command line where it gives any, else those of the task file.
pub open spec fn chosen_splits(args: Args, task: Option<&Task>) -> Seq<SplitPoint> {
    if args.splits@.len() > 0 {
        args.splits@
    } else {
        match task {
            Some(t) => t.splits@,
            None => Seq::empty(),
        }
    }
}

/// The split ranges: those of the command line where it gives any, else those of the task file.
pub open spec fn chosen_ranges(args: Args, task: Option<&Task>) -> Seq<SplitRange> {
    if args.split_ranges@.len() > 0 {
        args.split_ranges@
    } else {
        match task {
            Some(t) => t.split_ranges@,
            None => Seq::empty(),
        }
    }
}

/// Whether the track is to be fitted to the length of the original: where the
/// command line or the task file says so.
pub open spec fn chosen_fit(args: Args, task: Option<&Task>) -> bool {
    args.fit_length || match task {
        Some(t) => t.fit_length == Some(true),
        None => false,
    }
}

/// What is wrong with the job, if anything: the first of these that holds.
pub open spec fn settings_fault(args: Args, task: Option<&Task>) -> Option<ConfigError> {
    let input = first_text(args.input, task_input(task));
    let output = first_text(args.output, task_output(task));
    if input is None {
        Some(ConfigError::MissingInput)
    } else if output is None {
        Some(ConfigError::MissingOutput)
    } else if input == output {
        Some(ConfigError::SameInputAndOutput)
    } else if chosen_stream(args, task) is None {
        Some(ConfigError::MissingStream)
    } else {
        None
    }
}

/// A copy of the first of two texts that is there.
fn choose_text(first: &Option<String>, second: Option<&String>) -> (r: Option<String>)
    ensures
        optional_text(r) == match *first {
            Some(s) => Some(s@),
            None => match second {
                Some(s) => Some(s@),
                None => None,
            },
        },
{
    match first {
        Some(s) => Some(s.clone()),
        None => match second {
            Some(s) => Some(s.clone()),
            None => None,
        },
    }
}

/// A copy of the splits.
fn copy_splits(splits: &Vec<SplitPoint>) -> (r: Vec<SplitPoint>)
    ensures
        r@ == splits@,
{
    let mut out: Vec<SplitPoint> = Vec::new();
    let mut i: usize = 0;
    while i < splits.len()
        invariant
            i <= splits.len(),
            out@ == splits@.take(i as int),
        decreases splits.len() - i,
    {
        out.push(splits[i]);
        i += 1;
    }
    assert(splits@.take(i as int) =~= splits@);
    out
}

/// A copy of the ranges.
fn copy_ranges(ranges: &Vec<SplitRange>) -> (r: Vec<SplitRange>)
    ensures
        r@ == ranges@,
{
    let mut out: Vec<SplitRange> = Vec::new();
    let mut i: usize = 0;
    while i < ranges.len()
        invariant
            i <= ranges.len(),
            out@ == ranges@.take(i as int),
        decreases ranges.len() - i,
    {
        out.push(ranges[i]);
        i += 1;
    }
    assert(ranges@.take(i as int) =~= ranges@);
    out
}

/// Settles the job from the command line and the task file. What the
/// command line gives goes before what the task file gives, part by part.
pub fn resolve_settings(args: &Args, task: Option<&Task>) -> (r: Result<Settings, ConfigError>)
    ensures
        match r {
            Ok(settings) => {
                &&& settings_fault(*args, task) is None
                &&& Some(settings.input@) == first_text(args.input, task_input(task))
                &&& Some(settings.output@) == first_text(args.output, task_output(task))
                &&& Some(settings.stream) == chosen_stream(*args, task)
                &&& settings.initial_delay == chosen_initial_delay(*args, task)
                &&& optional_text(settings.bitrate) == first_text(args.bitrate, task_bitrate(task))
                &&& settings.silence_threshold == chosen_threshold(*args, task)
                &&& settings.splits@ == chosen_splits(*args, task)
                &&& settings.split_ranges@ == chosen_ranges(*args, task)
                &&& settings.fit_length == chosen_fit(*args, task)
            },
            Err(e) => settings_fault(*args, task) == Some(e),
        },
{
    let input = match choose_text(
        &args.input,
        match task {
            Some(t) => t.input.as_ref(),
            None => None,
        },
    ) {
        Some(s) => s,
        None => {
            return Err(ConfigError::MissingInput);
        },
    };
    let output = match choose_text(
        &args.output,
        match task {
            Some(t) => t.output.as_ref(),
            None => None,
        },
    ) {
        Some(s) => s,
        None => {
            return Err(ConfigError::MissingOutput);
        },
    };
    if same_text(input.as_str(), output.as_str()) {
        return Err(ConfigError::SameInputAndOutput);
    }
    let stream = match args.stream {
        Some(s) => s,
        None => match task {
            Some(t) => match t.stream {
                Some(s) => s,
                None => {
                    return Err(ConfigError::MissingStream);
                },
            },
            None => {
                return Err(ConfigError::MissingStream);
            },
        },
    };
    let initial_delay = if args.initial_delay != 0 {
        args.initial_delay
    } else {
        match task {
            Some(t) => match t.initial_delay {
                Some(d) => d,
                None => 0,
            },
            None => 0,
        }
    };
    let bitrate = choose_text(
        &args.bitrate,
        match task {
            Some(t) => t.bitrate.as_ref(),
            None => None,
        },
    );
    let silence_threshold = if args.silence_threshold != DEFAULT_SILENCE_THRESHOLD {
        args.silence_threshold
    } else {
        match task {
            Some(t) => match t.silence_threshold {
                Some(d) => d,
                None => DEFAULT_SILENCE_THRESHOLD,
            },
            None => DEFAULT_SILENCE_THRESHOLD,
        }
    };
    let splits = if args.splits.len() > 0 {
        copy_splits(&args.splits)
    } else {
        match task {
            Some(t) => copy_splits(&t.splits),
            None => Vec::new(),
        }
    };
    let split_ranges = if args.split_ranges.len() > 0 {
        copy_ranges(&args.split_ranges)
    } else {
        match task {
            Some(t) => copy_ranges(&t.split_ranges),
            None => Vec::new(),
        }
    };
    let fit_length = if args.fit_length {
        true
    } else {
        match task {
            Some(t) => match t.fit_length {
                Some(fit) => fit,
                None => false,
            },
            None => false,
        }
    };
    Ok(
        Settings {
            input,
            output,
            stream,
            initial_delay,
            bitrate,
            silence_threshold,
            splits,
            split_ranges,
            fit_length,
        },
    )
}

} // verus!
