use vstd::prelude::*;
use std::path::{Path, PathBuf};
use crate::audio_metadata::{
    build_stream_map_args, get_file_duration, is_measurement_failure, measured_duration, stream_map, ProbeError,
};
use crate::ffmpeg::{CommandOutput, FFmpegError};
use crate::cli::{SplitPoint, DELAY_PLACES, TIME_PLACES};
use crate::plan::{SplitPlan, SplitSource};
use crate::numeral::{decimal_text, fixed_text, push_decimal, push_fixed, push_shortest, shortest_text};
use crate::text::{from_chars, push_str, strings};
use crate::util::{buf_text, join, joined, path_text, path_to_str, InvalidPath};

verus! {

/// The request to copy one stream of a container into a lossless file of its own.
pub open spec fn extract_stream_args(input: Seq<char>, stream: usize, output: Seq<char>) -> Seq<Seq<char>> {
    seq![
        "-y"@,
        "-i"@,
        input,
        "-map"@,
        "0:"@ + decimal_text(stream as nat),
        "-c:a"@,
        "flac"@,
        output,
    ]
}

/// Builds the engine's arguments for copying stream `stream` of `input` into a
/// lossless file at `output_path`.
pub fn extract_audio_stream_to_flac(input: &str, stream: usize, output_path: &Path) -> (r: Result<
    Vec<String>,
    InvalidPath,
>)
    ensures
        match r {
            Ok(args) => path_text(output_path) is Some && strings(args@) == extract_stream_args(
                input@,
                stream,
                path_text(output_path)->0,
            ),
            Err(_) => path_text(output_path) is None,
        },
{
    let output = match path_to_str(output_path) {
        Ok(s) => s,
        Err(e) => {
            return Err(e);
        },
    };
    let mut selector: Vec<char> = Vec::new();
    push_str(&mut selector, "0:");
    push_decimal(&mut selector, stream as u64);
    let mut args: Vec<String> = Vec::new();
    args.push("-y".to_owned());
    args.push("-i".to_owned());
    args.push(input.to_owned());
    args.push("-map".to_owned());
    args.push(from_chars(&selector));
    args.push("-c:a".to_owned());
    args.push("flac".to_owned());
    args.push(output.to_owned());
    assert(strings(args@) =~= extract_stream_args(input@, stream, path_text(output_path)->0));
    Ok(args)
}

/// One of the segments that the splits part the stream into.
#[derive(Debug, Clone, Copy, PartialEq, Eq, Structural)]
pub struct SegmentDescriptor {
    pub index: usize,
    /// Microseconds from the start of the stream.
    pub start_time: u64,
    /// Microseconds; nothing for the last segment, which runs to the end of the stream.
    pub duration: Option<u64>,
    /// Microseconds of silence to put before the segment; negative to drop that much of its start.
    pub delay: i64,
}

/// Whether the times stand in their order.
pub open spec fn ascending(times: Seq<u64>) -> bool {
    forall|i: int, j: int| 0 <= i <= j < times.len() ==> times[i] <= times[j]
}

/// Where segment `i` begins: at the start of the stream, or at the split before it.
pub open spec fn segment_start(splits: Seq<u64>, i: int) -> u64 {
    if i <= 0 {
        0
    } else {
        splits[i - 1]
    }
}

/// Where segment `i` ends: at the next split, or at the end of a stream that lasts `stream_duration`.
pub open spec fn segment_end(splits: Seq<u64>, stream_duration: u64, i: int) -> u64 {
    if i < splits.len() {
        splits[i]
    } else {
        stream_duration
    }
}

/// Segment `i` of the stream that `splits` part, with its delay.
pub open spec fn segment_of(splits: Seq<u64>, delays: Seq<i64>, i: int) -> SegmentDescriptor {
    SegmentDescriptor {
        index: i as usize,
        start_time: segment_start(splits, i),
        duration: if i < splits.len() {
            Some((splits[i] - segment_start(splits, i)) as u64)
        } else {
            None
        },
        delay: delays[i],
    }
}

/// Whether every one of the times lies before the end of a stream that lasts `stream_duration`.
pub open spec fn all_before(times: Seq<u64>, stream_duration: u64) -> bool {
    forall|i: int| 0 <= i < times.len() ==> times[i] < stream_duration
}

/// Whether the moment `t` lies in segment `i`: not before its start, and before its end.
pub open spec fn in_segment(splits: Seq<u64>, stream_duration: u64, i: int, t: u64) -> bool {
    segment_start(splits, i) <= t < segment_end(splits, stream_duration, i)
}

/// The segments lie end to end and cover the stream exactly once: the first
/// begins at the start of the stream, each ends where the next begins, the
/// last ends with the stream, and every moment of the stream lies in exactly
/// one of them.
pub proof fn lemma_segments_cover(splits: Seq<u64>, delays: Seq<i64>, stream_duration: u64, t: u64)
    requires
        ascending(splits),
        all_before(splits, stream_duration),
        t < stream_duration,
    ensures
        forall|i: int|
            0 <= i <= splits.len() ==> (#[trigger] segment_of(splits, delays, i)).start_time
                == segment_start(splits, i),
        forall|i: int|
            0 <= i < splits.len() ==> (#[trigger] segment_of(splits, delays, i)).duration == Some(
                (segment_end(splits, stream_duration, i) - segment_start(splits, i)) as u64,
            ),
        segment_of(splits, delays, splits.len() as int).duration is None,
        segment_start(splits, 0) == 0,
        segment_end(splits, stream_duration, splits.len() as int) == stream_duration,
        forall|i: int|
            0 <= i < splits.len() ==> segment_end(splits, stream_duration, i) == segment_start(
                splits,
                i + 1,
            ),
        forall|i: int|
            0 <= i <= splits.len() ==> segment_start(splits, i) <= segment_end(
                splits,
                stream_duration,
                i,
            ),
        exists|i: int| 0 <= i <= splits.len() && #[trigger] in_segment(splits, stream_duration, i, t),
        forall|i: int, j: int|
            0 <= i <= splits.len() && 0 <= j <= splits.len() && #[trigger] in_segment(
                splits,
                stream_duration,
                i,
                t,
            ) && #[trigger] in_segment(splits, stream_duration, j, t) ==> i == j,
{
    let k = covering_segment(splits, t);
    lemma_covering_segment(splits, t);
    assert(in_segment(splits, stream_duration, k, t));
}

/// The number of splits that are not later than `t`: the index of the segment in which `t` lies.
spec fn covering_segment(splits: Seq<u64>, t: u64) -> int
    decreases splits.len(),
{
    if splits.len() == 0 {
        0
    } else if splits.last() <= t {
        splits.len() as int
    } else {
        covering_segment(splits.drop_last(), t)
    }
}

/// The segment counted by `covering_segment` begins at or before `t`, and the next split, if any, is later than `t`.
proof fn lemma_covering_segment(splits: Seq<u64>, t: u64)
    requires
        ascending(splits),
    ensures
        0 <= covering_segment(splits, t) <= splits.len(),
        segment_start(splits, covering_segment(splits, t)) <= t,
        covering_segment(splits, t) < splits.len() ==> t < splits[covering_segment(splits, t)],
    decreases splits.len(),
{
    if splits.len() > 0 && splits.last() > t {
        let front = splits.drop_last();
        assert(ascending(front)) by {
            assert forall|i: int, j: int| 0 <= i <= j < front.len() implies front[i] <= front[j] by {
                assert(front[i] == splits[i] && front[j] == splits[j]);
            }
        }
        lemma_covering_segment(front, t);
        let k = covering_segment(front, t);
        if k > 0 {
            assert(front[k - 1] == splits[k - 1]);
        }
        if k < front.len() {
            assert(front[k] == splits[k]);
        }
    }
}

/// Derives the segments of a stream from its splits and their delays.
pub fn segment_descriptors(split_points: &Vec<u64>, delays: &Vec<i64>) -> (r: Vec<SegmentDescriptor>)
    requires
        ascending(split_points@),
        delays@.len() == split_points@.len() + 1,
    ensures
        r@.len() == split_points@.len() + 1,
        forall|i: int| 0 <= i < r@.len() ==> r@[i] == segment_of(split_points@, delays@, i),
{
    let n = split_points.len();
    let mut out: Vec<SegmentDescriptor> = Vec::new();
    let mut prev: u64 = 0;
    let mut i: usize = 0;
    while i < n
        invariant
            n == split_points@.len(),
            delays@.len() == n + 1,
            ascending(split_points@),
            i <= n,
            out@.len() == i,
            prev == segment_start(split_points@, i as int),
            forall|j: int| 0 <= j < i ==> out@[j] == segment_of(split_points@, delays@, j),
        decreases n - i,
    {
        assert(i > 0 ==> split_points@[i - 1] <= split_points@[i as int]);
        out.push(
            SegmentDescriptor {
                index: i,
                start_time: prev,
                duration: Some(split_points[i] - prev),
                delay: delays[i],
            },
        );
        prev = split_points[i];
        i += 1;
    }
    out.push(SegmentDescriptor { index: n, start_time: prev, duration: None, delay: delays[n] });
    out
}

/// What a delay asks to be done to a segment.
#[derive(Debug, Clone, Copy, PartialEq, Eq, Structural)]
pub enum Adjustment {
    /// The segment is used as it is.
    Keep,
    /// So many microseconds of silence are put before the segment.
    Pad(u64),
    /// So many microseconds are dropped from the start of the segment.
    Trim(u64),
}

/// What the delay asks for: silence before the segment where it is above zero, a cut where it is below.
pub open spec fn adjustment_of(delay: i64) -> Adjustment {
    if delay > 0 {
        Adjustment::Pad(delay as u64)
    } else if delay < 0 {
        Adjustment::Trim((-delay) as u64)
    } else {
        Adjustment::Keep
    }
}

/// What the delay asks to be done to a segment.
pub fn adjustment(delay: i64) -> (r: Adjustment)
    ensures
        r == adjustment_of(delay),
{
    if delay > 0 {
        Adjustment::Pad(delay as u64)
    } else if delay == i64::MIN {
        Adjustment::Trim(0x8000_0000_0000_0000)
    } else if delay < 0 {
        Adjustment::Trim((-delay) as u64)
    } else {
        Adjustment::Keep
    }
}

/// The name of the file that segment `index` is cut into.
pub open spec fn part_name(index: usize) -> Seq<char> {
    "part_"@ + decimal_text((index + 1) as nat) + ".flac"@
}

/// The name of the file that holds segment `index` after its delay was applied.
pub open spec fn adjusted_name(index: usize, padded: bool) -> Seq<char> {
    "part_"@ + decimal_text((index + 1) as nat) + if padded {
        "_delayed.flac"@
    } else {
        "_trimmed.flac"@
    }
}

/// The request to cut the range from `start` out of `source` into the lossless
/// file `part`, with time stamps that begin at zero; without a duration the
/// range runs to the end.
pub open spec fn extract_range_args(source: Seq<char>, start: u64, duration: Option<u64>, part: Seq<char>) -> Seq<
    Seq<char>,
> {
    seq!["-y"@, "-i"@, source, "-ss"@, shortest_text(start as nat, TIME_PLACES as nat)] + match duration {
        Some(d) => seq!["-t"@, shortest_text(d as nat, TIME_PLACES as nat)],
        None => Seq::empty(),
    } + seq!["-af"@, "asetpts=PTS-STARTPTS"@, "-c:a"@, "flac"@, part]
}

/// The filter that delays every channel of a track by `silence`
/// microseconds: the delay is given once, in milliseconds, and the filter is
/// told to use it for all channels, however many the track has.
pub open spec fn delay_filter(silence: u64) -> Seq<char> {
    "adelay=delays="@ + shortest_text(silence as nat, DELAY_PLACES as nat) + ":all=1"@
}

/// The request to put `silence` microseconds of silence before the audio of
/// `part`, on every channel, with time stamps that begin at zero.
pub open spec fn pad_start_args(part: Seq<char>, silence: u64, output: Seq<char>) -> Seq<Seq<char>> {
    seq![
        "-y"@,
        "-i"@,
        part,
        "-filter_complex"@,
        delay_filter(silence) + ",asetpts=PTS-STARTPTS"@,
        "-c:a"@,
        "flac"@,
        output,
    ]
}

/// The request to drop the first `dropped` microseconds of the audio of `part`.
pub open spec fn trim_start_args(part: Seq<char>, dropped: u64, output: Seq<char>) -> Seq<Seq<char>> {
    seq![
        "-y"@,
        "-i"@,
        part,
        "-ss"@,
        shortest_text(dropped as nat, TIME_PLACES as nat),
        "-af"@,
        "asetpts=PTS-STARTPTS"@,
        "-c:a"@,
        "flac"@,
        output,
    ]
}

/// Builds the request that cuts a range out of `source`.
pub fn extract_range(source: &str, start: u64, duration: Option<u64>, part: &str) -> (r: Vec<String>)
    ensures
        strings(r@) == extract_range_args(source@, start, duration, part@),
{
    let mut start_text: Vec<char> = Vec::new();
    push_shortest(&mut start_text, start, TIME_PLACES);
    let mut args: Vec<String> = Vec::new();
    args.push("-y".to_owned());
    args.push("-i".to_owned());
    args.push(source.to_owned());
    args.push("-ss".to_owned());
    args.push(from_chars(&start_text));
    match duration {
        Some(d) => {
            let mut duration_text: Vec<char> = Vec::new();
            push_shortest(&mut duration_text, d, TIME_PLACES);
            args.push("-t".to_owned());
            args.push(from_chars(&duration_text));
        },
        None => {},
    }
    args.push("-af".to_owned());
    args.push("asetpts=PTS-STARTPTS".to_owned());
    args.push("-c:a".to_owned());
    args.push("flac".to_owned());
    args.push(part.to_owned());
    assert(strings(args@) =~= extract_range_args(source@, start, duration, part@));
    args
}

/// Builds the request that puts silence before a segment.
pub fn pad_start(part: &str, silence: u64, output: &str) -> (r: Vec<String>)
    ensures
        strings(r@) == pad_start_args(part@, silence, output@),
{
    let mut filter: Vec<char> = Vec::new();
    push_str(&mut filter, "adelay=delays=");
    push_shortest(&mut filter, silence, DELAY_PLACES);
    push_str(&mut filter, ":all=1");
    push_str(&mut filter, ",asetpts=PTS-STARTPTS");
    let mut args: Vec<String> = Vec::new();
    args.push("-y".to_owned());
    args.push("-i".to_owned());
    args.push(part.to_owned());
    args.push("-filter_complex".to_owned());
    args.push(from_chars(&filter));
    args.push("-c:a".to_owned());
    args.push("flac".to_owned());
    args.push(output.to_owned());
    assert(strings(args@) =~= pad_start_args(part@, silence, output@));
    args
}

/// Builds the request that drops the start of a segment.
pub fn trim_start(part: &str, dropped: u64, output: &str) -> (r: Vec<String>)
    ensures
        strings(r@) == trim_start_args(part@, dropped, output@),
{
    let mut dropped_text: Vec<char> = Vec::new();
    push_shortest(&mut dropped_text, dropped, TIME_PLACES);
    let mut args: Vec<String> = Vec::new();
    args.push("-y".to_owned());
    args.push("-i".to_owned());
    args.push(part.to_owned());
    args.push("-ss".to_owned());
    args.push(from_chars(&dropped_text));
    args.push("-af".to_owned());
    args.push("asetpts=PTS-STARTPTS".to_owned());
    args.push("-c:a".to_owned());
    args.push("flac".to_owned());
    args.push(output.to_owned());
    assert(strings(args@) =~= trim_start_args(part@, dropped, output@));
    args
}

/// The name of the file that segment `index` is cut into.
pub fn part_file_name(index: usize) -> (r: String)
    requires
        index < usize::MAX,
    ensures
        r@ == part_name(index),
{
    let mut name: Vec<char> = Vec::new();
    push_str(&mut name, "part_");
    push_decimal(&mut name, (index + 1) as u64);
    push_str(&mut name, ".flac");
    from_chars(&name)
}

/// The name of the file that holds segment `index` after its delay was applied.
pub fn adjusted_file_name(index: usize, padded: bool) -> (r: String)
    requires
        index < usize::MAX,
    ensures
        r@ == adjusted_name(index, padded),
{
    let mut name: Vec<char> = Vec::new();
    push_str(&mut name, "part_");
    push_decimal(&mut name, (index + 1) as u64);
    if padded {
        push_str(&mut name, "_delayed.flac");
    } else {
        push_str(&mut name, "_trimmed.flac");
    }
    from_chars(&name)
}

/// The work on one segment: the requests to hand to the engine, in their order, and the files they write.
#[derive(Debug)]
pub struct SegmentJob {
    pub segment: SegmentDescriptor,
    /// The request that cuts the segment out of the source into `part`.
    pub extract: Vec<String>,
    /// The file that `extract` writes.
    pub part: PathBuf,
    /// The request that applies the delay to `part`, where the delay is not zero.
    pub adjust: Option<Vec<String>>,
    /// The file that `adjust` writes. Once it is written, `part` is of no more use.
    pub adjusted: Option<PathBuf>,
}

/// The texts of the arguments, where there are any.
pub open spec fn optional_strings(v: Option<Vec<String>>) -> Option<Seq<Seq<char>>> {
    match v {
        Some(args) => Some(strings(args@)),
        None => None,
    }
}

/// The text of the path, where there is one and it is valid Unicode.
pub open spec fn optional_buf_text(p: Option<PathBuf>) -> Option<Seq<char>> {
    match p {
        Some(path) => buf_text(path),
        None => None,
    }
}

/// Whether the files that the work on `segment` writes into `tmpdir` have paths of valid Unicode.
pub open spec fn segment_paths_valid(tmpdir: &Path, segment: SegmentDescriptor) -> bool {
    &&& buf_text(joined(tmpdir, part_name(segment.index))) is Some
    &&& match adjustment_of(segment.delay) {
        Adjustment::Keep => true,
        Adjustment::Pad(_) => buf_text(joined(tmpdir, adjusted_name(segment.index, true))) is Some,
        Adjustment::Trim(_) => buf_text(joined(tmpdir, adjusted_name(segment.index, false))) is Some,
    }
}

impl SegmentJob {
    /// The job does to `segment` of `source` what the plan asks: it cuts the
    /// segment out into its part file in `tmpdir`, and pads or trims that
    /// into a second file as the delay says.
    pub open spec fn does(&self, source: Seq<char>, segment: SegmentDescriptor, tmpdir: &Path) -> bool {
        &&& self.segment == segment
        &&& self.part == joined(tmpdir, part_name(segment.index))
        &&& buf_text(self.part) is Some
        &&& strings(self.extract@) == extract_range_args(
            source,
            segment.start_time,
            segment.duration,
            buf_text(self.part)->0,
        )
        &&& match adjustment_of(segment.delay) {
            Adjustment::Keep => self.adjust is None && self.adjusted is None,
            Adjustment::Pad(silence) => {
                &&& self.adjusted == Some(joined(tmpdir, adjusted_name(segment.index, true)))
                &&& optional_buf_text(self.adjusted) is Some
                &&& optional_strings(self.adjust) == Some(
                    pad_start_args(buf_text(self.part)->0, silence, optional_buf_text(self.adjusted)->0),
                )
            },
            Adjustment::Trim(dropped) => {
                &&& self.adjusted == Some(joined(tmpdir, adjusted_name(segment.index, false)))
                &&& optional_buf_text(self.adjusted) is Some
                &&& optional_strings(self.adjust) == Some(
                    trim_start_args(buf_text(self.part)->0, dropped, optional_buf_text(self.adjusted)->0),
                )
            },
        }
    }

    /// The file that holds the finished segment.
    pub fn output(&self) -> (r: &PathBuf)
        ensures
            *r == match self.adjusted {
                Some(path) => path,
                None => self.part,
            },
    {
        match &self.adjusted {
            Some(path) => path,
            None => &self.part,
        }
    }
}

/// Builds the job for one segment in the scratch directory `tmpdir`.
///
/// Fails where the path of a file that the job writes is not valid Unicode.
pub fn segment_job(source: &str, segment: SegmentDescriptor, tmpdir: &Path) -> (r: Result<
    SegmentJob,
    InvalidPath,
>)
    requires
        segment.index < usize::MAX,
    ensures
        match r {
            Ok(job) => job.does(source@, segment, tmpdir),
            Err(_) => !segment_paths_valid(tmpdir, segment),
        },
{
    let part = join(tmpdir, part_file_name(segment.index).as_str());
    let part_text = match path_to_str(part.as_path()) {
        Ok(s) => s,
        Err(e) => {
            return Err(e);
        },
    };
    let extract = extract_range(source, segment.start_time, segment.duration, part_text);
    match adjustment(segment.delay) {
        Adjustment::Keep => Ok(SegmentJob { segment, extract, part, adjust: None, adjusted: None }),
        Adjustment::Pad(silence) => {
            let adjusted = join(tmpdir, adjusted_file_name(segment.index, true).as_str());
            let adjust = match path_to_str(adjusted.as_path()) {
                Ok(s) => pad_start(part_text, silence, s),
                Err(e) => {
                    return Err(e);
                },
            };
            Ok(SegmentJob { segment, extract, part, adjust: Some(adjust), adjusted: Some(adjusted) })
        },
        Adjustment::Trim(dropped) => {
            let adjusted = join(tmpdir, adjusted_file_name(segment.index, false).as_str());
            let adjust = match path_to_str(adjusted.as_path()) {
                Ok(s) => trim_start(part_text, dropped, s),
                Err(e) => {
                    return Err(e);
                },
            };
            Ok(SegmentJob { segment, extract, part, adjust: Some(adjust), adjusted: Some(adjusted) })
        },
    }
}

/// Why a plan cannot be carried out.
#[derive(Debug, Clone, Copy, PartialEq, Eq, Structural)]
pub enum AssemblyError {
    /// The plan has not one delay more than it has splits.
    DelayCount,
    /// The splits of the plan are not in the order of time.
    Unordered,
    /// The plan does not tell of every split where it comes from.
    SourceCount,
    /// A given split falls exactly on the quiet point of a range, at this
    /// time in microseconds: the segment between the two would be empty.
    EmptySegment { time: u64 },
    /// The path of the source, or of a file to be written, is not valid Unicode.
    InvalidPath,
}

/// What is wrong with the splits and their delays, if anything: the count of
/// the delays first, then the order of the splits.
pub open spec fn order_fault(split_points: Seq<u64>, delays: Seq<i64>) -> Option<AssemblyError> {
    if delays.len() != split_points.len() + 1 {
        Some(AssemblyError::DelayCount)
    } else if !ascending(split_points) {
        Some(AssemblyError::Unordered)
    } else {
        None
    }
}

/// Tells what is wrong with the splits and their delays, if anything.
pub fn check_order(split_points: &Vec<u64>, delays: &Vec<i64>) -> (r: Result<(), AssemblyError>)
    ensures
        match r {
            Ok(()) => order_fault(split_points@, delays@) is None,
            Err(e) => order_fault(split_points@, delays@) == Some(e),
        },
{
    let n = split_points.len();
    let d = delays.len();
    if n == usize::MAX || d != n + 1 {
        return Err(AssemblyError::DelayCount);
    }
    let mut i: usize = 1;
    while i < n
        invariant
            1 <= i,
            n == split_points@.len(),
            delays@.len() == n + 1,
            forall|a: int, b: int| 0 <= a <= b < i && b < n ==> split_points@[a] <= split_points@[b],
        decreases n - i,
    {
        if split_points[i - 1] > split_points[i] {
            assert(!ascending(split_points@)) by {
                assert(!(split_points@[i - 1] <= split_points@[i as int]));
            }
            return Err(AssemblyError::Unordered);
        }
        assert forall|a: int, b: int| 0 <= a <= b < i + 1 && b < n implies split_points@[a]
            <= split_points@[b] by {
            if b == i && a < i {
                assert(split_points@[a] <= split_points@[i - 1]);
            }
        }
        i += 1;
    }
    Ok(())
}

/// Builds one job for each segment, in the order of the segments.
fn segment_jobs(source: &str, split_points: &Vec<u64>, delays: &Vec<i64>, tmpdir: &Path) -> (r: Result<
    Vec<SegmentJob>,
    InvalidPath,
>)
    requires
        ascending(split_points@),
        delays@.len() == split_points@.len() + 1,
    ensures
        match r {
            Ok(jobs) => {
                &&& jobs@.len() == split_points@.len() + 1
                &&& forall|i: int|
                    0 <= i < jobs@.len() ==> (#[trigger] jobs@[i]).does(
                        source@,
                        segment_of(split_points@, delays@, i),
                        tmpdir,
                    )
            },
            Err(_) => exists|i: int|
                0 <= i <= split_points@.len() && !segment_paths_valid(
                    tmpdir,
                    #[trigger] segment_of(split_points@, delays@, i),
                ),
        },
{
    let segments = segment_descriptors(split_points, delays);
    let mut jobs: Vec<SegmentJob> = Vec::new();
    let mut i: usize = 0;
    while i < segments.len()
        invariant
            i <= segments.len(),
            segments@.len() == split_points@.len() + 1,
            forall|j: int| 0 <= j < segments@.len() ==> segments@[j] == segment_of(split_points@, delays@, j),
            jobs@.len() == i,
            forall|j: int|
                0 <= j < i ==> (#[trigger] jobs@[j]).does(
                    source@,
                    segment_of(split_points@, delays@, j),
                    tmpdir,
                ),
        decreases segments.len() - i,
    {
        match segment_job(source, segments[i], tmpdir) {
            Ok(job) => {
                jobs.push(job);
            },
            Err(e) => {
                assert(!segment_paths_valid(tmpdir, segment_of(split_points@, delays@, i as int)));
                return Err(e);
            },
        }
        i += 1;
    }
    Ok(jobs)
}

/// Whether the jobs cut the source at the splits: one job for each segment,
/// in the order of the segments, each with the delay that `delays` gives it.
pub open spec fn jobs_cut(
    jobs: Seq<SegmentJob>,
    flac_path: &Path,
    split_points: Seq<u64>,
    delays: Seq<i64>,
    tmpdir: &Path,
) -> bool {
    &&& path_text(flac_path) is Some
    &&& jobs.len() == split_points.len() + 1
    &&& forall|i: int|
        0 <= i < jobs.len() ==> (#[trigger] jobs[i]).does(
            path_text(flac_path)->0,
            segment_of(split_points, delays, i),
            tmpdir,
        )
}

/// Whether the path of the source, or of a file that a job writes into
/// `tmpdir`, is not valid Unicode.
pub open spec fn some_path_invalid(flac_path: &Path, split_points: Seq<u64>, delays: Seq<i64>, tmpdir: &Path) -> bool {
    path_text(flac_path) is None || exists|i: int|
        0 <= i <= split_points.len() && !segment_paths_valid(
            tmpdir,
            #[trigger] segment_of(split_points, delays, i),
        )
}

/// Plans the cutting of `flac_path` at `split_points`: one job for each
/// segment, in the order of the segments, each with the delay that `delays`
/// gives it.
///
/// Fails where there is not one delay more than there are splits; then where
/// the splits are not in the order of time; then where `flac_path`, or the
/// path of a file that a job writes into `tmpdir`, is not valid Unicode.
pub fn split_and_delay_audio(
    flac_path: &Path,
    split_points: &Vec<u64>,
    delays: &Vec<i64>,
    tmpdir: &Path,
) -> (r: Result<Vec<SegmentJob>, AssemblyError>)
    ensures
        match order_fault(split_points@, delays@) {
            Some(fault) => r == Err::<Vec<SegmentJob>, AssemblyError>(fault),
            None => match r {
                Ok(jobs) => jobs_cut(jobs@, flac_path, split_points@, delays@, tmpdir),
                Err(e) => e == AssemblyError::InvalidPath && some_path_invalid(
                    flac_path,
                    split_points@,
                    delays@,
                    tmpdir,
                ),
            },
        },
{
    match check_order(split_points, delays) {
        Ok(()) => {},
        Err(e) => {
            return Err(e);
        },
    }
    let source = match path_to_str(flac_path) {
        Ok(s) => s,
        Err(_) => {
            return Err(AssemblyError::InvalidPath);
        },
    };
    match segment_jobs(source, split_points, delays, tmpdir) {
        Ok(jobs) => Ok(jobs),
        Err(_) => Err(AssemblyError::InvalidPath),
    }
}

/// The times of the splits, in their order.
pub open spec fn split_times(splits: Seq<SplitPoint>) -> Seq<u64> {
    Seq::new(splits.len(), |i: int| splits[i].time)
}

/// Tells whether every split of the plan lies before the end of a stream
/// that lasts `stream_duration` microseconds. Only of such a plan do the
/// segments cover the stream.
pub fn splits_within(plan: &SplitPlan, stream_duration: u64) -> (r: bool)
    ensures
        r == all_before(split_times(plan.splits@), stream_duration),
{
    let mut i: usize = 0;
    while i < plan.splits.len()
        invariant
            i <= plan.splits.len(),
            forall|j: int| 0 <= j < i ==> split_times(plan.splits@)[j] < stream_duration,
        decreases plan.splits.len() - i,
    {
        if plan.splits[i].time >= stream_duration {
            assert(!(split_times(plan.splits@)[i as int] < stream_duration));
            return false;
        }
        i += 1;
    }
    true
}

/// Whether split `j` is the quiet point of a range and stands at the time of split `i`.
pub open spec fn falls_on(splits: Seq<SplitPoint>, sources: Seq<SplitSource>, i: int, j: int) -> bool {
    &&& 0 <= j < splits.len()
    &&& sources[j] is Range
    &&& splits[j].time == splits[i].time
}

/// Whether split `i` is a given split on which the quiet point of a range falls.
pub open spec fn collides(splits: Seq<SplitPoint>, sources: Seq<SplitSource>, i: int) -> bool {
    &&& 0 <= i < splits.len()
    &&& sources[i] is Explicit
    &&& exists|j: int| #[trigger] falls_on(splits, sources, i, j)
}

/// Whether split `i` is the first given split on which the quiet point of a range falls.
pub open spec fn is_first_collision(splits: Seq<SplitPoint>, sources: Seq<SplitSource>, i: int) -> bool {
    &&& collides(splits, sources, i)
    &&& forall|k: int| 0 <= k < i ==> !#[trigger] collides(splits, sources, k)
}

/// Looks for a given split on which the quiet point of a range falls, and
/// tells the time of the first such split.
fn find_collision(plan: &SplitPlan) -> (r: Option<u64>)
    requires
        plan.sources@.len() == plan.splits@.len(),
    ensures
        match r {
            Some(time) => exists|i: int|
                #[trigger] is_first_collision(plan.splits@, plan.sources@, i) && time
                    == plan.splits@[i].time,
            None => forall|i: int| !#[trigger] collides(plan.splits@, plan.sources@, i),
        },
{
    let n = plan.splits.len();
    let mut i: usize = 0;
    while i < n
        invariant
            i <= n,
            n == plan.splits@.len(),
            plan.sources@.len() == n,
            forall|k: int| 0 <= k < i ==> !#[trigger] collides(plan.splits@, plan.sources@, k),
        decreases n - i,
    {
        let given = match plan.sources[i] {
            SplitSource::Explicit => true,
            SplitSource::Range { .. } => false,
        };
        if given {
            let mut j: usize = 0;
            while j < n
                invariant
                    j <= n,
                    i < n,
                    n == plan.splits@.len(),
                    plan.sources@.len() == n,
                    plan.sources@[i as int] is Explicit,
                    forall|k: int| 0 <= k < i ==> !#[trigger] collides(plan.splits@, plan.sources@, k),
                    forall|m: int| 0 <= m < j ==> !#[trigger] falls_on(plan.splits@, plan.sources@, i as int, m),
                decreases n - j,
            {
                let measured = match plan.sources[j] {
                    SplitSource::Explicit => false,
                    SplitSource::Range { .. } => true,
                };
                if measured && plan.splits[j].time == plan.splits[i].time {
                    assert(falls_on(plan.splits@, plan.sources@, i as int, j as int));
                    assert(is_first_collision(plan.splits@, plan.sources@, i as int));
                    return Some(plan.splits[i].time);
                }
                j += 1;
            }
            assert(!collides(plan.splits@, plan.sources@, i as int));
        } else {
            assert(!collides(plan.splits@, plan.sources@, i as int));
        }
        i += 1;
    }
    None
}

/// Plans the work on every segment of a plan: one job for each segment, in
/// the order of the segments. No engine is asked before the whole plan stands.
///
/// A plan is refused that has not one delay more than it has splits; then one
/// whose splits are not in the order of time; then one that does not tell of
/// every split where it comes from; then one in which a given split falls
/// exactly on the quiet point of a range, so that the segment between the
/// two would be empty; then one for which the path of the source or of a
/// file to be written is not valid Unicode. Two given splits at one time are
/// no fault.
pub fn assemble(flac_path: &Path, plan: &SplitPlan, tmpdir: &Path) -> (r: Result<Vec<SegmentJob>, AssemblyError>)
    ensures
        match order_fault(split_times(plan.splits@), plan.delays@) {
            Some(fault) => r == Err::<Vec<SegmentJob>, AssemblyError>(fault),
            None => if plan.sources@.len() != plan.splits@.len() {
                r == Err::<Vec<SegmentJob>, AssemblyError>(AssemblyError::SourceCount)
            } else {
                match r {
                    Err(AssemblyError::EmptySegment { time }) => exists|i: int|
                        #[trigger] is_first_collision(plan.splits@, plan.sources@, i) && time
                            == plan.splits@[i].time,
                    Ok(jobs) => {
                        &&& forall|i: int| !#[trigger] collides(plan.splits@, plan.sources@, i)
                        &&& jobs_cut(jobs@, flac_path, split_times(plan.splits@), plan.delays@, tmpdir)
                    },
                    Err(e) => {
                        &&& forall|i: int| !#[trigger] collides(plan.splits@, plan.sources@, i)
                        &&& e == AssemblyError::InvalidPath
                        &&& some_path_invalid(flac_path, split_times(plan.splits@), plan.delays@, tmpdir)
                    },
                }
            },
        },
{
    let times = plan.times();
    assert(times@ =~= split_times(plan.splits@));
    match check_order(&times, &plan.delays) {
        Ok(()) => {},
        Err(e) => {
            return Err(e);
        },
    }
    if plan.sources.len() != plan.splits.len() {
        return Err(AssemblyError::SourceCount);
    }
    match find_collision(plan) {
        Some(time) => {
            return Err(AssemblyError::EmptySegment { time });
        },
        None => {},
    }
    split_and_delay_audio(flac_path, &times, &plan.delays, tmpdir)
}

/// The name of the file that holds the segments joined together.
pub const JOINED_FILE_NAME: &'static str = "target_audio_final.flac";

/// The arguments that name the files to join, in their order.
pub open spec fn input_args(files: Seq<Seq<char>>) -> Seq<Seq<char>>
    decreases files.len(),
{
    if files.len() == 0 {
        Seq::empty()
    } else {
        input_args(files.drop_last()) + seq!["-i"@, files.last()]
    }
}

/// The labels of the audio of the first `n` inputs, in their order.
pub open spec fn input_labels(n: nat) -> Seq<char>
    decreases n,
{
    if n == 0 {
        Seq::empty()
    } else {
        input_labels((n - 1) as nat) + "["@ + decimal_text((n - 1) as nat) + ":a]"@
    }
}

/// The filter that joins the audio of `n` inputs, in the order of the inputs, into one stream.
pub open spec fn concat_filter(n: nat) -> Seq<char> {
    input_labels(n) + "concat=n="@ + decimal_text(n) + ":v=0:a=1[a]"@
}

/// The request to join `files`, in their order, into the lossless file `output`.
pub open spec fn concat_args(files: Seq<Seq<char>>, output: Seq<char>) -> Seq<Seq<char>> {
    seq!["-y"@] + input_args(files) + seq![
        "-filter_complex"@,
        concat_filter(files.len()),
        "-map"@,
        "[a]"@,
        "-c:a"@,
        "flac"@,
        output,
    ]
}

/// The request names the files in the order in which they were given: the
/// `k`-th file stands at the `k`-th input of the engine.
pub proof fn lemma_concat_keeps_order(files: Seq<Seq<char>>, output: Seq<char>, k: int)
    requires
        0 <= k < files.len(),
    ensures
        concat_args(files, output).len() == 2 * files.len() + 8,
        concat_args(files, output)[1 + 2 * k] == "-i"@,
        concat_args(files, output)[2 + 2 * k] == files[k],
{
    lemma_input_args(files, k);
}

/// The arguments name each file behind an `-i`, in the order of the files.
proof fn lemma_input_args(files: Seq<Seq<char>>, k: int)
    requires
        0 <= k < files.len(),
    ensures
        input_args(files).len() == 2 * files.len(),
        input_args(files)[2 * k] == "-i"@,
        input_args(files)[2 * k + 1] == files[k],
    decreases files.len(),
{
    lemma_input_args_len(files.drop_last());
    if k < files.len() - 1 {
        lemma_input_args(files.drop_last(), k);
    }
}

/// There are two arguments for each file.
proof fn lemma_input_args_len(files: Seq<Seq<char>>)
    ensures
        input_args(files).len() == 2 * files.len(),
    decreases files.len(),
{
    if files.len() > 0 {
        lemma_input_args_len(files.drop_last());
    }
}

/// The texts of the paths, where each of them is valid Unicode.
pub open spec fn path_texts(files: Seq<PathBuf>) -> Seq<Seq<char>> {
    Seq::new(files.len(), |i: int| buf_text(files[i])->0)
}

/// Builds the request that joins the files, in their order, into `output`.
pub fn concat_request(files: &Vec<String>, output: &str) -> (r: Vec<String>)
    ensures
        strings(r@) == concat_args(strings(files@), output@),
{
    let ghost names = strings(files@);
    let mut args: Vec<String> = Vec::new();
    args.push("-y".to_owned());
    let mut labels: Vec<char> = Vec::new();
    let mut i: usize = 0;
    while i < files.len()
        invariant
            i <= files.len(),
            names == strings(files@),
            strings(args@) == seq!["-y"@] + input_args(names.take(i as int)),
            labels@ == input_labels(i as nat),
        decreases files.len() - i,
    {
        assert(names.take(i + 1).drop_last() =~= names.take(i as int));
        let ghost before = strings(args@);
        args.push("-i".to_owned());
        args.push(files[i].clone());
        assert(strings(args@) =~= before + seq!["-i"@, names[i as int]]);
        assert(strings(args@) =~= seq!["-y"@] + input_args(names.take(i + 1)));
        push_str(&mut labels, "[");
        push_decimal(&mut labels, i as u64);
        push_str(&mut labels, ":a]");
        i += 1;
    }
    assert(names.take(i as int) =~= names);
    push_str(&mut labels, "concat=n=");
    push_decimal(&mut labels, files.len() as u64);
    push_str(&mut labels, ":v=0:a=1[a]");
    let ghost before = strings(args@);
    args.push("-filter_complex".to_owned());
    args.push(from_chars(&labels));
    args.push("-map".to_owned());
    args.push("[a]".to_owned());
    args.push("-c:a".to_owned());
    args.push("flac".to_owned());
    args.push(output.to_owned());
    assert(strings(args@) =~= before + seq![
        "-filter_complex"@,
        concat_filter(names.len()),
        "-map"@,
        "[a]"@,
        "-c:a"@,
        "flac"@,
        output@,
    ]);
    args
}

/// The joining of the segments: the request to hand to the engine, and the file it writes.
#[derive(Debug)]
pub struct ConcatJob {
    pub args: Vec<String>,
    pub output: PathBuf,
}

/// Plans the joining of the segment files, in the order given, into one
/// lossless file in `tmpdir`.
///
/// Fails where the path of a segment file, or of the joined file, is not valid Unicode.
pub fn concat_audio_segments(split_files: &Vec<PathBuf>, tmpdir: &Path) -> (r: Result<ConcatJob, InvalidPath>)
    ensures
        match r {
            Ok(job) => {
                &&& forall|i: int| 0 <= i < split_files@.len() ==> buf_text(#[trigger] split_files@[i]) is Some
                &&& job.output == joined(tmpdir, JOINED_FILE_NAME@)
                &&& buf_text(job.output) is Some
                &&& strings(job.args@) == concat_args(path_texts(split_files@), buf_text(job.output)->0)
            },
            Err(_) => (exists|i: int| 0 <= i < split_files@.len() && buf_text(#[trigger] split_files@[i]) is None)
                || buf_text(joined(tmpdir, JOINED_FILE_NAME@)) is None,
        },
{
    let mut names: Vec<String> = Vec::new();
    let mut i: usize = 0;
    while i < split_files.len()
        invariant
            i <= split_files.len(),
            names@.len() == i,
            forall|j: int| 0 <= j < i ==> buf_text(#[trigger] split_files@[j]) == Some(names@[j]@),
        decreases split_files.len() - i,
    {
        match path_to_str(split_files[i].as_path()) {
            Ok(s) => {
                names.push(s.to_owned());
            },
            Err(e) => {
                return Err(e);
            },
        }
        i += 1;
    }
    assert(strings(names@) =~= path_texts(split_files@));
    let output = join(tmpdir, JOINED_FILE_NAME);
    let args = match path_to_str(output.as_path()) {
        Ok(s) => concat_request(&names, s),
        Err(e) => {
            return Err(e);
        },
    };
    Ok(ConcatJob { args, output })
}

/// The request to encode the lossless file `input` with `codec` at `bitrate` into `output`.
pub open spec fn convert_args(input: Seq<char>, codec: Seq<char>, bitrate: Seq<char>, output: Seq<char>) -> Seq<
    Seq<char>,
> {
    seq![
        "-y"@,
        "-i"@,
        input,
        "-af"@,
        "asetpts=PTS-STARTPTS"@,
        "-c:a"@,
        codec,
        "-b:a"@,
        bitrate,
        output,
    ]
}

/// Builds the engine's arguments for encoding `input_flac` with `codec` at `bitrate` into `output_path`.
///
/// Fails where one of the two paths is not valid Unicode.
pub fn convert_audio_codec(input_flac: &Path, codec: &str, bitrate: &str, output_path: &Path) -> (r: Result<
    Vec<String>,
    InvalidPath,
>)
    ensures
        match r {
            Ok(args) => {
                &&& path_text(input_flac) is Some
                &&& path_text(output_path) is Some
                &&& strings(args@) == convert_args(
                    path_text(input_flac)->0,
                    codec@,
                    bitrate@,
                    path_text(output_path)->0,
                )
            },
            Err(_) => path_text(input_flac) is None || path_text(output_path) is None,
        },
{
    let input = match path_to_str(input_flac) {
        Ok(s) => s,
        Err(e) => {
            return Err(e);
        },
    };
    let output = match path_to_str(output_path) {
        Ok(s) => s,
        Err(e) => {
            return Err(e);
        },
    };
    let mut args: Vec<String> = Vec::new();
    args.push("-y".to_owned());
    args.push("-i".to_owned());
    args.push(input.to_owned());
    args.push("-af".to_owned());
    args.push("asetpts=PTS-STARTPTS".to_owned());
    args.push("-c:a".to_owned());
    args.push(codec.to_owned());
    args.push("-b:a".to_owned());
    args.push(bitrate.to_owned());
    args.push(output.to_owned());
    assert(strings(args@) =~= convert_args(input@, codec@, bitrate@, output@));
    Ok(args)
}

/// Durations that differ by no more than this many microseconds count as equal.
pub const FIT_EPSILON: u64 = 1000;

/// What is to be done to a track so that it lasts as long as it should.
#[derive(Debug, Clone, Copy, PartialEq, Eq, Structural)]
pub enum FitDecision {
    /// The track is too long: it is cut at the target duration.
    Trim,
    /// The track is too short: so many microseconds of silence are put behind it.
    Pad(u64),
    /// The track is as long as it should be, and is used as it is.
    Keep,
}

/// What is to be done to a track of `input_duration` microseconds that should last `target_duration`.
pub open spec fn fit_decision(input_duration: u64, target_duration: u64) -> FitDecision {
    if input_duration > target_duration + FIT_EPSILON {
        FitDecision::Trim
    } else if input_duration + FIT_EPSILON < target_duration {
        FitDecision::Pad((target_duration - input_duration) as u64)
    } else {
        FitDecision::Keep
    }
}

/// How long the track lasts once the decision was carried out.
pub open spec fn fitted_duration(input_duration: u64, target_duration: u64) -> u64 {
    match fit_decision(input_duration, target_duration) {
        FitDecision::Keep => input_duration,
        _ => target_duration,
    }
}

/// A track is left as it is exactly when its duration is within the tolerance
/// of the target; and a track that was fitted is left as it is when it is
/// fitted again.
pub proof fn lemma_fit_settles(input_duration: u64, target_duration: u64)
    ensures
        fit_decision(input_duration, target_duration) == FitDecision::Keep <==> (input_duration
            - target_duration <= FIT_EPSILON && target_duration - input_duration <= FIT_EPSILON),
        fit_decision(fitted_duration(input_duration, target_duration), target_duration)
            == FitDecision::Keep,
        fitted_duration(fitted_duration(input_duration, target_duration), target_duration)
            == fitted_duration(input_duration, target_duration),
{
}

/// Decides what is to be done to a track so that it lasts as long as it should.
pub fn decide_fit(input_duration: u64, target_duration: u64) -> (r: FitDecision)
    ensures
        r == fit_decision(input_duration, target_duration),
{
    if input_duration > target_duration && input_duration - target_duration > FIT_EPSILON {
        FitDecision::Trim
    } else if target_duration > input_duration && target_duration - input_duration > FIT_EPSILON {
        FitDecision::Pad(target_duration - input_duration)
    } else {
        FitDecision::Keep
    }
}

/// The request to cut the track `input` at `target_duration` microseconds.
pub open spec fn trim_end_args(input: Seq<char>, target_duration: u64, output: Seq<char>) -> Seq<Seq<char>> {
    seq![
        "-y"@,
        "-i"@,
        input,
        "-af"@,
        "atrim=0:"@ + fixed_text(target_duration as nat, TIME_PLACES as nat),
        "-c:a"@,
        "flac"@,
        output,
    ]
}

/// The request to put `silence` microseconds of silence behind the track
/// `input`, so that it lasts `target_duration` microseconds.
pub open spec fn pad_end_args(input: Seq<char>, silence: u64, target_duration: u64, output: Seq<char>) -> Seq<
    Seq<char>,
> {
    seq![
        "-y"@,
        "-i"@,
        input,
        "-af"@,
        "apad=pad_dur="@ + fixed_text(silence as nat, TIME_PLACES as nat),
        "-t"@,
        fixed_text(target_duration as nat, TIME_PLACES as nat),
        "-c:a"@,
        "flac"@,
        output,
    ]
}

/// Builds the request that cuts a track at its target duration.
pub fn trim_end(input: &str, target_duration: u64, output: &str) -> (r: Vec<String>)
    ensures
        strings(r@) == trim_end_args(input@, target_duration, output@),
{
    let mut filter: Vec<char> = Vec::new();
    push_str(&mut filter, "atrim=0:");
    push_fixed(&mut filter, target_duration, TIME_PLACES);
    let mut args: Vec<String> = Vec::new();
    args.push("-y".to_owned());
    args.push("-i".to_owned());
    args.push(input.to_owned());
    args.push("-af".to_owned());
    args.push(from_chars(&filter));
    args.push("-c:a".to_owned());
    args.push("flac".to_owned());
    args.push(output.to_owned());
    assert(strings(args@) =~= trim_end_args(input@, target_duration, output@));
    args
}

/// Builds the request that puts silence behind a track.
pub fn pad_end(input: &str, silence: u64, target_duration: u64, output: &str) -> (r: Vec<String>)
    ensures
        strings(r@) == pad_end_args(input@, silence, target_duration, output@),
{
    let mut filter: Vec<char> = Vec::new();
    push_str(&mut filter, "apad=pad_dur=");
    push_fixed(&mut filter, silence, TIME_PLACES);
    let mut target: Vec<char> = Vec::new();
    push_fixed(&mut target, target_duration, TIME_PLACES);
    let mut args: Vec<String> = Vec::new();
    args.push("-y".to_owned());
    args.push("-i".to_owned());
    args.push(input.to_owned());
    args.push("-af".to_owned());
    args.push(from_chars(&filter));
    args.push("-t".to_owned());
    args.push(from_chars(&target));
    args.push("-c:a".to_owned());
    args.push("flac".to_owned());
    args.push(output.to_owned());
    assert(strings(args@) =~= pad_end_args(input@, silence, target_duration, output@));
    args
}

/// What brings a track to its target duration.
#[derive(Debug, Clone, PartialEq, Eq)]
pub enum FitAction {
    /// The engine is to cut the track: its arguments.
    Trim(Vec<String>),
    /// The engine is to put silence behind the track: its arguments.
    Pad(Vec<String>),
    /// The track is to be copied as it is, byte for byte.
    Copy,
}

/// Why a track could not be fitted.
#[derive(Debug)]
pub enum FitError {
    /// The measurement of the track yields no duration: why.
    Measurement(FFmpegError),
    /// The engine is needed, and the path of the track or of the fitted file is not valid Unicode.
    InvalidPath,
}

/// Decides how the track at `input_path` is brought to `target_duration`
/// microseconds in `output_path`, given the answer of the probing tool on
/// how long the track lasts.
///
/// Fails where the measurement yields no duration: nothing is then asked of
/// the engine. Fails also where the engine is needed and one of the two
/// paths is not valid Unicode.
pub fn fit_audio_to_length(
    input_path: &Path,
    output_path: &Path,
    target_duration: u64,
    measurement: &CommandOutput,
) -> (r: Result<FitAction, FitError>)
    ensures
        match measured_duration(*measurement) {
            None => r matches Err(FitError::Measurement(e)) && is_measurement_failure(*measurement, e),
            Some(input_duration) => match fit_decision(input_duration, target_duration) {
                FitDecision::Keep => r matches Ok(FitAction::Copy),
                FitDecision::Trim => match r {
                    Ok(FitAction::Trim(args)) => {
                        &&& path_text(input_path) is Some
                        &&& path_text(output_path) is Some
                        &&& strings(args@) == trim_end_args(
                            path_text(input_path)->0,
                            target_duration,
                            path_text(output_path)->0,
                        )
                    },
                    Err(FitError::InvalidPath) => path_text(input_path) is None || path_text(output_path)
                        is None,
                    _ => false,
                },
                FitDecision::Pad(silence) => match r {
                    Ok(FitAction::Pad(args)) => {
                        &&& path_text(input_path) is Some
                        &&& path_text(output_path) is Some
                        &&& strings(args@) == pad_end_args(
                            path_text(input_path)->0,
                            silence,
                            target_duration,
                            path_text(output_path)->0,
                        )
                    },
                    Err(FitError::InvalidPath) => path_text(input_path) is None || path_text(output_path)
                        is None,
                    _ => false,
                },
            },
        },
{
    let input_duration = match get_file_duration(measurement) {
        Ok(duration) => duration,
        Err(e) => {
            return Err(FitError::Measurement(e));
        },
    };
    match decide_fit(input_duration, target_duration) {
        FitDecision::Keep => Ok(FitAction::Copy),
        FitDecision::Trim => {
            let input = match path_to_str(input_path) {
                Ok(s) => s,
                Err(_) => {
                    return Err(FitError::InvalidPath);
                },
            };
            let output = match path_to_str(output_path) {
                Ok(s) => s,
                Err(_) => {
                    return Err(FitError::InvalidPath);
                },
            };
            Ok(FitAction::Trim(trim_end(input, target_duration, output)))
        },
        FitDecision::Pad(silence) => {
            let input = match path_to_str(input_path) {
                Ok(s) => s,
                Err(_) => {
                    return Err(FitError::InvalidPath);
                },
            };
            let output = match path_to_str(output_path) {
                Ok(s) => s,
                Err(_) => {
                    return Err(FitError::InvalidPath);
                },
            };
            Ok(FitAction::Pad(pad_end(input, silence, target_duration, output)))
        },
    }
}

/// The tags that the replacement stream gets: its language and its title, each only where it is not empty.
pub open spec fn tag_args(audio_stream_idx: usize, title: Seq<char>, language: Seq<char>) -> Seq<Seq<char>> {
    let which = "-metadata:s:a:"@ + decimal_text(audio_stream_idx as nat);
    (if language.len() > 0 {
        seq![which, "language="@ + language]
    } else {
        Seq::empty()
    }) + (if title.len() > 0 {
        seq![which, "title="@ + title]
    } else {
        Seq::empty()
    })
}

/// The request to build `output` from the container `input` with the stream
/// map `map`: the new track is the second input, and every stream is copied as it is.
pub open spec fn remux_args(
    input: Seq<char>,
    new_audio: Seq<char>,
    output: Seq<char>,
    audio_stream_idx: usize,
    title: Seq<char>,
    language: Seq<char>,
    map: Seq<Seq<char>>,
) -> Seq<Seq<char>> {
    seq!["-y"@, "-i"@, input, "-i"@, new_audio] + map + seq!["-c"@, "copy"@] + tag_args(
        audio_stream_idx,
        title,
        language,
    ) + seq![output]
}

/// Why the request to put the new track into the container could not be built.
#[derive(Debug, Clone, Copy, PartialEq, Eq, Structural)]
pub enum RemuxError {
    /// The container has no audio stream at the place that is to be replaced.
    Probe(ProbeError),
    /// The path of the new track is not valid Unicode.
    InvalidPath,
}

/// Builds the request that puts the new track in the place of the original
/// audio stream, given the engine's listing of the `index,type` of every
/// stream of `input`: what the engine wrote in answer to a question that
/// `probe_outcome` found answered.
///
/// Fails where the container has no audio stream at the place
/// `audio_stream_idx` among its audio streams; then where the path of the new
/// track is not valid Unicode.
pub fn remux_audio_stream(
    input: &str,
    new_audio: &Path,
    output: &str,
    audio_stream_idx: usize,
    original_title: &str,
    original_lang: &str,
    streams_info: &str,
) -> (r: Result<Vec<String>, RemuxError>)
    ensures
        match stream_map(streams_info@, audio_stream_idx) {
            Err(e) => r == Err::<Vec<String>, RemuxError>(RemuxError::Probe(e)),
            Ok(map) => match r {
                Ok(args) => path_text(new_audio) is Some && strings(args@) == remux_args(
                    input@,
                    path_text(new_audio)->0,
                    output@,
                    audio_stream_idx,
                    original_title@,
                    original_lang@,
                    map,
                ),
                Err(e) => e == RemuxError::InvalidPath && path_text(new_audio) is None,
            },
        },
{
    let mut map = match build_stream_map_args(streams_info, audio_stream_idx) {
        Ok(map) => map,
        Err(e) => {
            return Err(RemuxError::Probe(e));
        },
    };
    let new_track = match path_to_str(new_audio) {
        Ok(s) => s,
        Err(_) => {
            return Err(RemuxError::InvalidPath);
        },
    };
    let mut which: Vec<char> = Vec::new();
    push_str(&mut which, "-metadata:s:a:");
    push_decimal(&mut which, audio_stream_idx as u64);
    let mut args: Vec<String> = Vec::new();
    args.push("-y".to_owned());
    args.push("-i".to_owned());
    args.push(input.to_owned());
    args.push("-i".to_owned());
    args.push(new_track.to_owned());
    let ghost head = strings(args@);
    let ghost mapped = strings(map@);
    args.append(&mut map);
    assert(strings(args@) =~= head + mapped);
    args.push("-c".to_owned());
    args.push("copy".to_owned());
    let ghost copied = strings(args@);
    if !original_lang.is_empty() {
        let mut tag: Vec<char> = Vec::new();
        push_str(&mut tag, "language=");
        push_str(&mut tag, original_lang);
        args.push(from_chars(&which));
        args.push(from_chars(&tag));
    }
    if !original_title.is_empty() {
        let mut tag: Vec<char> = Vec::new();
        push_str(&mut tag, "title=");
        push_str(&mut tag, original_title);
        args.push(from_chars(&which));
        args.push(from_chars(&tag));
    }
    assert(strings(args@) =~= copied + tag_args(audio_stream_idx, original_title@, original_lang@));
    args.push(output.to_owned());
    assert(strings(args@) =~= remux_args(
        input@,
        new_track@,
        output@,
        audio_stream_idx,
        original_title@,
        original_lang@,
        mapped,
    ));
    Ok(args)
}

} // verus!
