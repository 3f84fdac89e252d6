use vstd::prelude::*;
use crate::cli::{LOUDNESS_PLACES, TIME_PLACES};
use crate::numeral::{
    fixed_value, parse_fixed, parse_u32, parse_unsigned_fixed, push_shortest, shortest_text, u32_value,
    unsigned_fixed_value,
};
use crate::pattern::{
    all_matches, capture_all, capture_first, compile, compiles, first_match, groups_text, matches_text, Groups,
};
use crate::text::{contains, from_chars, has_word, optional_text, push_str, strings, to_chars};

verus! {

/// The loudness report line of the engine's `ebur128` filter: the time and the momentary loudness.
pub const LOUDNESS_PATTERN: &'static str =
    r"\[Parsed_ebur128_0 @ [^\]]+\] t:\s*([\d.]+)\s*TARGET:.*M:\s*([-\d.]+)\s*S:";

/// One loudness measurement of the engine.
#[derive(Debug, Clone, Copy, PartialEq, Eq, Structural)]
pub struct LoudnessSample {
    /// Microseconds.
    pub time: u64,
    /// Momentary loudness in thousandths of a LUFS.
    pub loudness: i64,
}

/// The quietest audible moment of a range.
#[derive(Debug)]
pub struct QuietestPointResult {
    /// Microseconds.
    pub time: u64,
    /// Thousandths of a LUFS.
    pub loudness: i64,
    pub debug_output: Option<String>,
}

/// What can go wrong with the engine and with what it reports.
#[derive(Debug)]
pub enum FFmpegError {
    /// The engine is of another version than the expected one.
    VersionMismatch { expected_major: u32, expected_minor: u32, found_major: u32, found_minor: u32 },
    /// The engine's banner shows no version.
    VersionParseError,
    /// The engine, asked for its version, reported no success.
    FFmpegVersionCheckFailed,
    /// The command of this name was not found.
    CommandNotFound(String),
    /// The command, or the step, of this name failed: why.
    CommandFailed(String, String),
    /// A pattern was refused.
    Regex(regex::Error),
    /// A number of the version is too large.
    ParseInt,
    /// A report of the engine is no JSON text.
    SerdeJson(serde_json::Error),
    /// The bit rate of the stream with this index could not be made out.
    BitrateUndetermined { stream_index: usize },
    /// What the engine reported as a duration, given here, is no duration.
    DurationUnreadable(String),
    /// No measurement of the range from `start` to `end` is louder than `threshold`.
    QuietPointNotFound { start: u64, end: u64, threshold: i64 },
}

/// How a run of a command of the engine ended, and what it wrote.
#[derive(Debug, Clone, PartialEq, Eq, Default)]
pub struct CommandOutput {
    /// Whether the command reported success.
    pub success: bool,
    pub stdout: String,
    pub stderr: String,
}

/// What came of the attempt to start a command.
#[derive(Debug, Clone, PartialEq, Eq)]
pub enum Launch {
    /// The command ran to its end.
    Finished(CommandOutput),
    /// No such command was found.
    NotFound,
    /// The command could not be started for another reason, given here.
    Failed(String),
}

/// The measurement that one report line holds, where its two numbers can be read.
pub open spec fn sample_of(groups: Seq<Option<Seq<char>>>) -> Option<LoudnessSample> {
    if groups.len() > 2 && groups[1] is Some && groups[2] is Some {
        match (
            unsigned_fixed_value(groups[1]->0, TIME_PLACES as nat),
            fixed_value(groups[2]->0, LOUDNESS_PLACES as nat),
        ) {
            (Some(time), Some(loudness)) => Some(LoudnessSample { time, loudness }),
            _ => None,
        }
    } else {
        None
    }
}

/// The measurements that the report lines hold, in their order.
pub open spec fn samples_of(found: Seq<Seq<Option<Seq<char>>>>) -> Seq<LoudnessSample> {
    found.filter_map(|groups: Seq<Option<Seq<char>>>| sample_of(groups))
}

/// A measurement counts where it lies in the range, its ends included, and is
/// louder than the threshold.
pub open spec fn is_candidate(s: LoudnessSample, start: u64, end: u64, threshold: i64) -> bool {
    start <= s.time <= end && s.loudness > threshold
}

/// `a` is to be taken before `b`: it is quieter, or as quiet and not later.
pub open spec fn quieter(a: LoudnessSample, b: LoudnessSample) -> bool {
    a.loudness < b.loudness || (a.loudness == b.loudness && a.time <= b.time)
}

/// The quietest of the measurements that count, the earliest of them where several are as quiet.
pub open spec fn quietest(samples: Seq<LoudnessSample>, start: u64, end: u64, threshold: i64) -> Option<
    LoudnessSample,
>
    decreases samples.len(),
{
    if samples.len() == 0 {
        None
    } else {
        let rest = quietest(samples.drop_last(), start, end, threshold);
        let last = samples.last();
        if !is_candidate(last, start, end, threshold) {
            rest
        } else {
            match rest {
                None => Some(last),
                Some(best) => if quieter(best, last) {
                    Some(best)
                } else {
                    Some(last)
                },
            }
        }
    }
}

/// The quiet point is one of the measurements, it counts, and no measurement
/// that counts is to be taken before it. There is none exactly when no
/// measurement counts.
pub proof fn lemma_quietest(samples: Seq<LoudnessSample>, start: u64, end: u64, threshold: i64)
    ensures
        match quietest(samples, start, end, threshold) {
            Some(best) => {
                &&& samples.contains(best)
                &&& is_candidate(best, start, end, threshold)
                &&& best.loudness > threshold
                &&& forall|i: int|
                    0 <= i < samples.len() && is_candidate(#[trigger] samples[i], start, end, threshold)
                        ==> quieter(best, samples[i])
            },
            None => forall|i: int|
                0 <= i < samples.len() ==> !is_candidate(#[trigger] samples[i], start, end, threshold),
        },
    decreases samples.len(),
{
    if samples.len() > 0 {
        let front = samples.drop_last();
        lemma_quietest(front, start, end, threshold);
        match quietest(samples, start, end, threshold) {
            Some(best) => {
                if quietest(front, start, end, threshold) == Some(best) {
                    let k = choose|k: int| 0 <= k < front.len() && front[k] == best;
                    assert(samples[k] == best);
                } else {
                    assert(samples[samples.len() - 1] == best);
                }
                assert forall|i: int|
                    0 <= i < samples.len() && is_candidate(
                        #[trigger] samples[i],
                        start,
                        end,
                        threshold,
                    ) implies quieter(best, samples[i]) by {
                    if i < front.len() {
                        assert(front[i] == samples[i]);
                    }
                }
            },
            None => {
                assert forall|i: int| 0 <= i < samples.len() implies !is_candidate(
                    #[trigger] samples[i],
                    start,
                    end,
                    threshold,
                ) by {
                    if i < front.len() {
                        assert(front[i] == samples[i]);
                    }
                }
            },
        }
    }
}

/// Picks the quietest audible measurement of the range from `start` to `end`.
pub fn quietest_point(samples: &Vec<LoudnessSample>, start: u64, end: u64, threshold: i64) -> (r: Option<
    LoudnessSample,
>)
    ensures
        r == quietest(samples@, start, end, threshold),
        r matches Some(best) ==> best.loudness > threshold && start <= best.time <= end,
{
    let mut best: Option<LoudnessSample> = None;
    let mut i: usize = 0;
    while i < samples.len()
        invariant
            i <= samples.len(),
            best == quietest(samples@.take(i as int), start, end, threshold),
        decreases samples.len() - i,
    {
        let s = samples[i];
        assert(samples@.take(i + 1).drop_last() =~= samples@.take(i as int));
        if s.time >= start && s.time <= end && s.loudness > threshold {
            best = match best {
                None => Some(s),
                Some(b) => if b.loudness < s.loudness || (b.loudness == s.loudness && b.time <= s.time) {
                    Some(b)
                } else {
                    Some(s)
                },
            };
        }
        i += 1;
    }
    proof {
        assert(samples@.take(i as int) =~= samples@);
        lemma_quietest(samples@, start, end, threshold);
    }
    best
}

/// Reads the measurement of one report line.
pub fn loudness_sample(groups: &Groups) -> (r: Option<LoudnessSample>)
    ensures
        r == sample_of(groups_text(*groups)),
{
    if groups.len() <= 2 {
        return None;
    }
    match (&groups[1], &groups[2]) {
        (Some(time_text), Some(loudness_text)) => {
            let t = to_chars(time_text.as_str());
            let l = to_chars(loudness_text.as_str());
            match (parse_unsigned_fixed(&t, TIME_PLACES), parse_fixed(&l, LOUDNESS_PLACES)) {
                (Some(time), Some(loudness)) => Some(LoudnessSample { time, loudness }),
                _ => None,
            }
        },
        _ => None,
    }
}

/// Reads the measurements of the report lines, leaving out the lines whose numbers cannot be read.
pub fn loudness_samples(found: &Vec<Groups>) -> (r: Vec<LoudnessSample>)
    ensures
        r@ == samples_of(matches_text(found@)),
{
    let ghost lines = matches_text(found@);
    let ghost read = |groups: Seq<Option<Seq<char>>>| sample_of(groups);
    let mut out: Vec<LoudnessSample> = Vec::new();
    let mut i: usize = 0;
    while i < found.len()
        invariant
            i <= found.len(),
            lines == matches_text(found@),
            read == |groups: Seq<Option<Seq<char>>>| sample_of(groups),
            out@ == lines.take(i as int).filter_map(read),
        decreases found.len() - i,
    {
        proof {
            lines.lemma_filter_map_take_succ(read, i as int);
        }
        match loudness_sample(&found[i]) {
            Some(s) => {
                out.push(s);
            },
            None => {},
        }
        i += 1;
    }
    assert(lines.take(i as int) =~= lines);
    out
}

/// What is kept of the engine's log for the reader when `debug` is set.
pub open spec fn debug_text(log: Seq<char>, debug: bool) -> Option<Seq<char>> {
    if debug {
        Some("\n--- FFMPEG STDERR for quietest point ---\n"@ + log + "\n--- END FFMPEG STDERR ---"@)
    } else {
        None
    }
}

/// The request to meter the loudness of `audio` from `start` to `end`: a pass
/// over exactly that range that writes no output but the report.
pub open spec fn metering_args(audio: Seq<char>, start: u64, end: u64) -> Seq<Seq<char>> {
    let duration = if end >= start {
        (end - start) as nat
    } else {
        0
    };
    seq![
        "-i"@,
        audio,
        "-ss"@,
        shortest_text(start as nat, TIME_PLACES as nat),
        "-t"@,
        shortest_text(duration, TIME_PLACES as nat),
        "-af"@,
        "ebur128=peak=true"@,
        "-f"@,
        "null"@,
        "-"@,
    ]
}

/// Builds the request for a loudness metering pass over the range from `start` to `end`.
pub fn metering_request(audio: &str, start: u64, end: u64) -> (r: Vec<String>)
    ensures
        strings(r@) == metering_args(audio@, start, end),
{
    let duration = if end >= start {
        end - start
    } else {
        0
    };
    let mut start_text: Vec<char> = Vec::new();
    push_shortest(&mut start_text, start, TIME_PLACES);
    let mut duration_text: Vec<char> = Vec::new();
    push_shortest(&mut duration_text, duration, TIME_PLACES);
    let mut args: Vec<String> = Vec::new();
    args.push("-i".to_owned());
    args.push(audio.to_owned());
    args.push("-ss".to_owned());
    args.push(from_chars(&start_text));
    args.push("-t".to_owned());
    args.push(from_chars(&duration_text));
    args.push("-af".to_owned());
    args.push("ebur128=peak=true".to_owned());
    args.push("-f".to_owned());
    args.push("null".to_owned());
    args.push("-".to_owned());
    assert(strings(args@) =~= metering_args(audio@, start, end));
    args
}

/// Reads the loudness measurements out of the log of a metering pass.
pub fn read_loudness_log(log: &str) -> (r: Result<Vec<LoudnessSample>, FFmpegError>)
    ensures
        match r {
            Ok(samples) => compiles(LOUDNESS_PATTERN@) && samples@ == samples_of(
                all_matches(LOUDNESS_PATTERN@, log@),
            ),
            Err(e) => !compiles(LOUDNESS_PATTERN@) && e is Regex,
        },
{
    let re = match compile(LOUDNESS_PATTERN) {
        Ok(re) => re,
        Err(e) => {
            return Err(FFmpegError::Regex(e));
        },
    };
    let found = capture_all(&re, log);
    Ok(loudness_samples(&found))
}

/// Finds the quietest audible moment between `start` and `end` in the log of
/// a loudness metering pass over that range, which `probe_outcome` found to
/// have ended with success.
pub fn find_quietest_point(log: &str, start: u64, end: u64, silence_threshold: i64, debug: bool) -> (r:
    Result<QuietestPointResult, FFmpegError>)
    ensures
        !compiles(LOUDNESS_PATTERN@) ==> r matches Err(FFmpegError::Regex(_)),
        compiles(LOUDNESS_PATTERN@) ==> match quietest(
            samples_of(all_matches(LOUDNESS_PATTERN@, log@)),
            start,
            end,
            silence_threshold,
        ) {
            Some(best) => r matches Ok(found) && found.time == best.time && found.loudness
                == best.loudness && optional_text(found.debug_output) == debug_text(log@, debug),
            None => r matches Err(FFmpegError::QuietPointNotFound { start: s, end: e, threshold: t })
                && s == start && e == end && t == silence_threshold,
        },
        r matches Ok(found) ==> found.loudness > silence_threshold && start <= found.time <= end,
{
    let samples = match read_loudness_log(log) {
        Ok(samples) => samples,
        Err(e) => {
            return Err(e);
        },
    };
    let debug_output = if debug {
        let mut text: Vec<char> = Vec::new();
        push_str(&mut text, "\n--- FFMPEG STDERR for quietest point ---\n");
        push_str(&mut text, log);
        push_str(&mut text, "\n--- END FFMPEG STDERR ---");
        Some(from_chars(&text))
    } else {
        None
    };
    match quietest_point(&samples, start, end, silence_threshold) {
        Some(best) => Ok(QuietestPointResult { time: best.time, loudness: best.loudness, debug_output }),
        None => Err(FFmpegError::QuietPointNotFound { start, end, threshold: silence_threshold }),
    }
}

/// The version of the engine that this library was tried with.
pub const EXPECTED_FFMPEG_MAJOR_VERSION: u32 = 7;

/// The minor version of the engine that this library was tried with.
pub const EXPECTED_FFMPEG_MINOR_VERSION: u32 = 1;

/// The oldest version of the engine that can do what is asked of it.
pub const MINIMUM_FFMPEG_MAJOR_VERSION: u32 = 4;

/// The first two numbers of the version in the engine's banner.
pub const VERSION_PATTERN: &'static str = r"ffmpeg version (\d+)\.(\d+)";

/// The numbers of the version in the engine's banner, the third where there is one.
pub const FULL_VERSION_PATTERN: &'static str = r"ffmpeg version (\d+)\.(\d+)(?:\.(\d+))?";

/// The name of the filter that meters loudness.
pub const LOUDNESS_FILTER: &'static str = "ebur128";

/// The version of the engine that was found.
#[derive(Debug, Clone, Copy, PartialEq, Eq, Structural)]
pub struct FFmpegVersionInfo {
    pub major: u32,
    pub minor: u32,
    pub patch: u32,
    /// The version is not older than the oldest that will do.
    pub is_compatible: bool,
    /// The version is the one that this library was tried with.
    pub is_tested_version: bool,
}

/// What was found of the engine on this machine.
#[derive(Debug, Clone, PartialEq, Eq)]
pub struct FFmpegCheckResult {
    pub ffmpeg_available: bool,
    pub ffmpeg_version: Option<FFmpegVersionInfo>,
    pub ffprobe_available: bool,
    pub ebur128_filter_available: bool,
    pub error: Option<String>,
}

/// The text that group `i` of a match took; nothing where the match has no
/// such group or the group took no part in it.
pub open spec fn group_at(groups: Seq<Option<Seq<char>>>, i: int) -> Option<Seq<char>> {
    if 0 <= i < groups.len() {
        groups[i]
    } else {
        None
    }
}

/// Whether the banner shows the version that is expected: both numbers must
/// be there, must be numbers, and must be the expected ones.
pub open spec fn version_check(found: Option<Seq<Option<Seq<char>>>>) -> Result<(), FFmpegError> {
    match found {
        None => Err(FFmpegError::VersionParseError),
        Some(groups) => match group_at(groups, 1) {
            None => Err(FFmpegError::VersionParseError),
            Some(major_text) => match u32_value(major_text) {
                None => Err(FFmpegError::ParseInt),
                Some(major) => match group_at(groups, 2) {
                    None => Err(FFmpegError::VersionParseError),
                    Some(minor_text) => match u32_value(minor_text) {
                        None => Err(FFmpegError::ParseInt),
                        Some(minor) => if major == EXPECTED_FFMPEG_MAJOR_VERSION && minor
                            == EXPECTED_FFMPEG_MINOR_VERSION {
                            Ok(())
                        } else {
                            Err(
                                FFmpegError::VersionMismatch {
                                    expected_major: EXPECTED_FFMPEG_MAJOR_VERSION,
                                    expected_minor: EXPECTED_FFMPEG_MINOR_VERSION,
                                    found_major: major,
                                    found_minor: minor,
                                },
                            )
                        },
                    },
                },
            },
        },
    }
}

/// The groups of a match as plain text, where there is a match.
pub open spec fn optional_groups(found: Option<Groups>) -> Option<Seq<Option<Seq<char>>>> {
    match found {
        Some(groups) => Some(groups_text(groups)),
        None => None,
    }
}

/// The text that group `i` took.
fn group<'a>(groups: &'a Groups, i: usize) -> (r: Option<&'a String>)
    ensures
        match r {
            Some(s) => group_at(groups_text(*groups), i as int) == Some(s@),
            None => group_at(groups_text(*groups), i as int) is None,
        },
{
    if i < groups.len() {
        match &groups[i] {
            Some(s) => Some(s),
            None => None,
        }
    } else {
        None
    }
}

/// Holds the version that the groups of the banner show against the expected one.
pub fn check_version_groups(found: &Option<Groups>) -> (r: Result<(), FFmpegError>)
    ensures
        r == version_check(optional_groups(*found)),
{
    let groups = match found {
        Some(groups) => groups,
        None => {
            return Err(FFmpegError::VersionParseError);
        },
    };
    let major_text = match group(groups, 1) {
        Some(s) => s,
        None => {
            return Err(FFmpegError::VersionParseError);
        },
    };
    let major = match parse_u32(&to_chars(major_text.as_str())) {
        Some(n) => n,
        None => {
            return Err(FFmpegError::ParseInt);
        },
    };
    let minor_text = match group(groups, 2) {
        Some(s) => s,
        None => {
            return Err(FFmpegError::VersionParseError);
        },
    };
    let minor = match parse_u32(&to_chars(minor_text.as_str())) {
        Some(n) => n,
        None => {
            return Err(FFmpegError::ParseInt);
        },
    };
    if major == EXPECTED_FFMPEG_MAJOR_VERSION && minor == EXPECTED_FFMPEG_MINOR_VERSION {
        Ok(())
    } else {
        Err(
            FFmpegError::VersionMismatch {
                expected_major: EXPECTED_FFMPEG_MAJOR_VERSION,
                expected_minor: EXPECTED_FFMPEG_MINOR_VERSION,
                found_major: major,
                found_minor: minor,
            },
        )
    }
}

/// Checks that the engine, asked for its version, names the expected one.
pub fn check_ffmpeg_version(output: &CommandOutput) -> (r: Result<(), FFmpegError>)
    ensures
        !output.success ==> r == Err::<(), FFmpegError>(FFmpegError::FFmpegVersionCheckFailed),
        output.success && !compiles(VERSION_PATTERN@) ==> r matches Err(FFmpegError::Regex(_)),
        output.success && compiles(VERSION_PATTERN@) ==> r == version_check(
            first_match(VERSION_PATTERN@, output.stdout@),
        ),
{
    if !output.success {
        return Err(FFmpegError::FFmpegVersionCheckFailed);
    }
    let re = match compile(VERSION_PATTERN) {
        Ok(re) => re,
        Err(e) => {
            return Err(FFmpegError::Regex(e));
        },
    };
    let found = capture_first(&re, output.stdout.as_str());
    check_version_groups(&found)
}

/// The number that a group holds, or zero where it holds none.
pub open spec fn number_or_zero(text: Option<Seq<char>>) -> u32 {
    match text {
        Some(t) => match u32_value(t) {
            Some(n) => n,
            None => 0,
        },
        None => 0,
    }
}

/// The version that the groups of the banner show.
pub open spec fn version_info(groups: Seq<Option<Seq<char>>>) -> FFmpegVersionInfo {
    let major = number_or_zero(group_at(groups, 1));
    let minor = number_or_zero(group_at(groups, 2));
    FFmpegVersionInfo {
        major,
        minor,
        patch: number_or_zero(group_at(groups, 3)),
        is_compatible: major >= MINIMUM_FFMPEG_MAJOR_VERSION,
        is_tested_version: major == EXPECTED_FFMPEG_MAJOR_VERSION && minor
            == EXPECTED_FFMPEG_MINOR_VERSION,
    }
}

/// The number that group `i` holds, or zero.
fn group_number(groups: &Groups, i: usize) -> (r: u32)
    ensures
        r == number_or_zero(group_at(groups_text(*groups), i as int)),
{
    match group(groups, i) {
        Some(s) => match parse_u32(&to_chars(s.as_str())) {
            Some(n) => n,
            None => 0,
        },
        None => 0,
    }
}

/// Reads the version that the groups of the banner show.
pub fn read_version(groups: &Groups) -> (r: FFmpegVersionInfo)
    ensures
        r == version_info(groups_text(*groups)),
{
    let major = group_number(groups, 1);
    let minor = group_number(groups, 2);
    FFmpegVersionInfo {
        major,
        minor,
        patch: group_number(groups, 3),
        is_compatible: major >= MINIMUM_FFMPEG_MAJOR_VERSION,
        is_tested_version: major == EXPECTED_FFMPEG_MAJOR_VERSION && minor
            == EXPECTED_FFMPEG_MINOR_VERSION,
    }
}

/// Whether the command ran to its end and reported success.
pub open spec fn succeeded(launch: Launch) -> bool {
    launch matches Launch::Finished(output) && output.success
}

/// The version of the engine, where it ran with success and its banner shows one.
pub open spec fn installed_version(ffmpeg: Launch) -> Option<FFmpegVersionInfo> {
    match ffmpeg {
        Launch::Finished(output) => if output.success && compiles(FULL_VERSION_PATTERN@) {
            match first_match(FULL_VERSION_PATTERN@, output.stdout@) {
                Some(groups) => Some(version_info(groups)),
                None => None,
            }
        } else {
            None
        },
        _ => None,
    }
}

/// Why the engine could not be asked for its version, where it could not.
pub open spec fn launch_error(ffmpeg: Launch) -> Option<Seq<char>> {
    match ffmpeg {
        Launch::Finished(_) => None,
        Launch::NotFound => Some("FFmpeg not found in PATH"@),
        Launch::Failed(why) => Some("Failed to check FFmpeg: "@ + why@),
    }
}

/// Whether the engine's list of filters names the loudness filter.
pub open spec fn lists_loudness_filter(filters: Launch) -> bool {
    filters matches Launch::Finished(output) && has_word(output.stdout@, LOUDNESS_FILTER@)
}

/// Puts together what was found of the engine: from its answer when asked
/// for its version, from that of its probing tool, and from its list of filters.
pub fn check_ffmpeg_installation(ffmpeg: &Launch, ffprobe: &Launch, filters: &Launch) -> (r: FFmpegCheckResult)
    ensures
        r.ffmpeg_available == succeeded(*ffmpeg),
        r.ffmpeg_version == installed_version(*ffmpeg),
        r.ffprobe_available == succeeded(*ffprobe),
        r.ebur128_filter_available == lists_loudness_filter(*filters),
        optional_text(r.error) == launch_error(*ffmpeg),
{
    let mut ffmpeg_available = false;
    let mut ffmpeg_version: Option<FFmpegVersionInfo> = None;
    let mut error: Option<String> = None;
    match ffmpeg {
        Launch::Finished(output) => {
            if output.success {
                ffmpeg_available = true;
                match compile(FULL_VERSION_PATTERN) {
                    Ok(re) => match capture_first(&re, output.stdout.as_str()) {
                        Some(groups) => {
                            ffmpeg_version = Some(read_version(&groups));
                        },
                        None => {},
                    },
                    Err(_) => {},
                }
            }
        },
        Launch::NotFound => {
            error = Some("FFmpeg not found in PATH".to_owned());
        },
        Launch::Failed(why) => {
            let mut text: Vec<char> = Vec::new();
            push_str(&mut text, "Failed to check FFmpeg: ");
            push_str(&mut text, why.as_str());
            error = Some(from_chars(&text));
        },
    }
    let ffprobe_available = match ffprobe {
        Launch::Finished(output) => output.success,
        _ => false,
    };
    let ebur128_filter_available = match filters {
        Launch::Finished(output) => contains(&to_chars(output.stdout.as_str()), &to_chars(LOUDNESS_FILTER)),
        _ => false,
    };
    FFmpegCheckResult { ffmpeg_available, ffmpeg_version, ffprobe_available, ebur128_filter_available, error }
}

/// What stands in the way of using the engine.
#[derive(Debug, Clone, PartialEq, Eq)]
pub enum InstallationFault {
    /// The engine could not be started: why.
    FfmpegMissing(String),
    /// The engine's probing tool is missing.
    FfprobeMissing,
}

/// Whether the engine can be used, as far as was found: it cannot where it
/// could not be started, nor where its probing tool is missing.
pub fn installation_verdict(found: &FFmpegCheckResult) -> (r: Result<(), InstallationFault>)
    ensures
        match r {
            Ok(()) => (found.ffmpeg_available || found.error is None) && found.ffprobe_available,
            Err(InstallationFault::FfmpegMissing(why)) => !found.ffmpeg_available && optional_text(
                found.error,
            ) == Some(why@),
            Err(InstallationFault::FfprobeMissing) => (found.ffmpeg_available || found.error is None)
                && !found.ffprobe_available,
        },
{
    if !found.ffmpeg_available {
        match &found.error {
            Some(why) => {
                return Err(InstallationFault::FfmpegMissing(why.clone()));
            },
            None => {},
        }
    }
    if !found.ffprobe_available {
        return Err(InstallationFault::FfprobeMissing);
    }
    Ok(())
}

/// Whether a command that the engine needs is there: it is where it could be started.
pub fn check_dependency(cmd: &str, launch: &Launch) -> (r: Result<(), FFmpegError>)
    ensures
        match *launch {
            Launch::Finished(_) => r is Ok,
            Launch::NotFound => r matches Err(FFmpegError::CommandNotFound(name)) && name@ == cmd@,
            Launch::Failed(why) => r matches Err(FFmpegError::CommandFailed(name, reason)) && name@
                == cmd@ && reason@ == why@,
        },
{
    match launch {
        Launch::Finished(_) => Ok(()),
        Launch::NotFound => Err(FFmpegError::CommandNotFound(cmd.to_owned())),
        Launch::Failed(why) => Err(FFmpegError::CommandFailed(cmd.to_owned(), why.clone())),
    }
}

/// Judges a question put to the engine for the step `step`: where the engine
/// reported no success, its answer is not to be read, and the error names
/// the step and holds what the engine wrote as its error.
pub fn probe_outcome(step: &str, answer: &CommandOutput) -> (r: Result<(), FFmpegError>)
    ensures
        answer.success ==> r is Ok,
        !answer.success ==> (r matches Err(FFmpegError::CommandFailed(what, why)) && what@ == step@ && why@
            == answer.stderr@),
{
    if answer.success {
        Ok(())
    } else {
        Err(FFmpegError::CommandFailed(step.to_owned(), answer.stderr.clone()))
    }
}

/// The words with one space between each two of them.
pub open spec fn spaced(words: Seq<Seq<char>>) -> Seq<char>
    decreases words.len(),
{
    if words.len() == 0 {
        Seq::empty()
    } else if words.len() == 1 {
        words[0]
    } else {
        spaced(words.drop_last()) + " "@ + words.last()
    }
}

/// Judges a run of the engine with the arguments `args`: where it reported
/// no success, the error names the arguments.
pub fn ffmpeg_outcome(args: &Vec<String>, success: bool) -> (r: Result<(), FFmpegError>)
    ensures
        success ==> r is Ok,
        !success ==> (r matches Err(FFmpegError::CommandFailed(what, why)) && what@ == spaced(
            strings(args@),
        ) && why@ == "FFmpeg failed"@),
{
    if success {
        return Ok(());
    }
    let ghost words = strings(args@);
    let mut line: Vec<char> = Vec::new();
    let mut i: usize = 0;
    while i < args.len()
        invariant
            i <= args.len(),
            words == strings(args@),
            line@ == spaced(words.take(i as int)),
        decreases args.len() - i,
    {
        assert(words.take(i + 1).drop_last() =~= words.take(i as int));
        if i > 0 {
            push_str(&mut line, " ");
        }
        push_str(&mut line, args[i].as_str());
        i += 1;
    }
    assert(words.take(i as int) =~= words);
    Err(FFmpegError::CommandFailed(from_chars(&line), "FFmpeg failed".to_owned()))
}

} // verus!
