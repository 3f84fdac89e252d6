use split_audio::audio_metadata::{
    durations_request, file_duration_request, listing_request, report_request, tag_request, CODEC_LISTING,
    TYPE_LISTING,
};
use split_audio::audio_processing::{assemble, splits_within, AssemblyError};
use split_audio::cli::{SplitPoint, SplitRange};
use split_audio::ffmpeg::{metering_request, read_loudness_log, LoudnessSample};
use split_audio::plan::{resolve, MeasuredRange, SplitPlan, SplitSource};
use std::path::Path;

fn strs(v: &[&str]) -> Vec<String> {
    v.iter().map(|s| s.to_string()).collect()
}

#[test]
fn metering_pass_covers_the_range() {
    assert_eq!(
        metering_request("/s/target_audio.flac", 10_000_000, 12_500_000),
        strs(&["-i", "/s/target_audio.flac", "-ss", "10", "-t", "2.5", "-af", "ebur128=peak=true", "-f", "null", "-"])
    );
    assert_eq!(metering_request("a", 1_234_567, 1_234_568)[3..6], strs(&["1.234567", "-t", "0.000001"])[..]);
    assert_eq!(metering_request("a", 5, 5)[5], "0");
    assert_eq!(metering_request("a", 7_000_000, 5_000_000)[5], "0");
}

#[test]
fn log_without_report_lines_holds_no_measurements() {
    assert_eq!(read_loudness_log("").unwrap(), Vec::new());
    assert_eq!(read_loudness_log("size=N/A time=00:00:02.00 bitrate=N/A speed= 300x\n").unwrap(), Vec::new());
    let log = "[Parsed_ebur128_0 @ 0x1] t: 0.5        TARGET:-23 LUFS    M: -33.1 S:-120.7     I: -33.1 LUFS\n\
               [Parsed_ebur128_0 @ 0x1] t: 1..5       TARGET:-23 LUFS    M: -30.0 S:-120.7     I: -33.1 LUFS\n\
               [Parsed_ebur128_0 @ 0x1] t: 0.6        TARGET:-23 LUFS    M: --3.1 S:-120.7     I: -33.1 LUFS\n\
               [Parsed_ebur128_1 @ 0x1] t: 0.7        TARGET:-23 LUFS    M: -33.1 S:-120.7     I: -33.1 LUFS\n\
               [Parsed_ebur128_0 @ 0x1] t: 0.8        TARGET:-23 LUFS    M:-120.7 S:-120.7     I: -70.0 LUFS\n";
    assert_eq!(
        read_loudness_log(log).unwrap(),
        vec![LoudnessSample { time: 500_000, loudness: -33_100 }, LoudnessSample { time: 800_000, loudness: -120_700 }]
    );
}

#[test]
fn probing_questions() {
    assert_eq!(
        report_request("in.mkv"),
        strs(&["-v", "quiet", "-print_format", "json", "-show_streams", "-show_format", "-select_streams", "a", "in.mkv"])
    );
    assert_eq!(
        listing_request("in.mkv", CODEC_LISTING),
        strs(&["-v", "error", "-show_entries", "stream=index,codec_type,codec_name", "-of", "csv=p=0", "in.mkv"])
    );
    assert_eq!(
        listing_request("in.mkv", TYPE_LISTING),
        strs(&["-v", "error", "-show_entries", "stream=index,codec_type", "-of", "csv=p=0", "in.mkv"])
    );
    assert_eq!(
        tag_request("in.mkv", 2, "title"),
        strs(&[
            "-v", "error", "-select_streams", "a:2", "-show_entries", "stream_tags=title", "-of",
            "default=noprint_wrappers=1:nokey=1", "in.mkv",
        ])
    );
    assert_eq!(tag_request("in.mkv", 10, "language")[3], "a:10");
    assert_eq!(tag_request("in.mkv", 10, "language")[5], "stream_tags=language");
    assert_eq!(
        durations_request("in.mkv"),
        strs(&[
            "-v", "error", "-show_entries", "stream=index,duration,codec_type", "-show_entries", "format=duration",
            "-of", "json", "in.mkv",
        ])
    );
    assert_eq!(
        file_duration_request("/s/target_audio_final.flac"),
        strs(&[
            "-v", "error", "-show_entries", "format=duration", "-of", "default=noprint_wrappers=1:nokey=1",
            "/s/target_audio_final.flac",
        ])
    );
}

#[test]
fn resolved_plan_is_assembled() {
    let plan = resolve(
        &vec![SplitPoint { time: 5_000_000, delay: 200_000 }, SplitPoint { time: 2_000_000, delay: -100_000 }],
        &Vec::new(),
        0,
        -95_000,
    )
    .unwrap();
    let dir = Path::new("/tmp/scratch");
    let jobs = assemble(Path::new("/tmp/scratch/target_audio.flac"), &plan, dir).unwrap();
    assert_eq!(jobs.len(), 3);
    assert_eq!(
        jobs.iter().map(|j| (j.segment.start_time, j.segment.duration, j.segment.delay)).collect::<Vec<_>>(),
        vec![(0, Some(2_000_000), 0), (2_000_000, Some(3_000_000), -100_000), (5_000_000, None, 200_000)]
    );
    assert_eq!(jobs[0].adjust, None);
    assert_eq!(jobs[1].output(), &dir.join("part_2_trimmed.flac"));
    assert_eq!(jobs[2].output(), &dir.join("part_3_delayed.flac"));
}

#[test]
fn broken_plan_is_refused_before_any_work() {
    let point = |t: u64| SplitPoint { time: t, delay: 0 };
    let dir = Path::new("/tmp/scratch");
    let flac = Path::new("/tmp/scratch/target_audio.flac");
    let short = SplitPlan { splits: vec![point(1), point(2)], sources: vec![SplitSource::Explicit; 2], delays: vec![0, 0] };
    assert_eq!(assemble(flac, &short, dir).err(), Some(AssemblyError::DelayCount));
    let long = SplitPlan { splits: vec![point(1)], sources: vec![SplitSource::Explicit], delays: vec![0, 0, 0] };
    assert_eq!(assemble(flac, &long, dir).err(), Some(AssemblyError::DelayCount));
    let none = SplitPlan { splits: Vec::new(), sources: Vec::new(), delays: Vec::new() };
    assert_eq!(assemble(flac, &none, dir).err(), Some(AssemblyError::DelayCount));
    let unordered = SplitPlan {
        splits: vec![point(1), point(3), point(2)],
        sources: vec![SplitSource::Explicit; 3],
        delays: vec![0, 0, 0, 0],
    };
    assert_eq!(assemble(flac, &unordered, dir).err(), Some(AssemblyError::Unordered));
    let both = SplitPlan { splits: vec![point(3), point(2)], sources: Vec::new(), delays: vec![0] };
    assert_eq!(assemble(flac, &both, dir).err(), Some(AssemblyError::DelayCount));
    let unsourced = SplitPlan { splits: vec![point(2), point(2)], sources: Vec::new(), delays: vec![0, 1, 2] };
    assert_eq!(assemble(flac, &unsourced, dir).err(), Some(AssemblyError::SourceCount));
    let oversourced = SplitPlan { splits: vec![point(2)], sources: vec![SplitSource::Explicit; 2], delays: vec![0, 1] };
    assert_eq!(assemble(flac, &oversourced, dir).err(), Some(AssemblyError::SourceCount));
    let level = SplitPlan { splits: vec![point(2), point(2)], sources: vec![SplitSource::Explicit; 2], delays: vec![0, 1, 2] };
    assert_eq!(assemble(flac, &level, dir).map(|jobs| jobs.len()), Ok(3));
}

#[test]
fn splits_must_lie_before_the_end_of_the_stream() {
    let point = |t: u64| SplitPoint { time: t, delay: 0 };
    let plan = SplitPlan {
        splits: vec![point(2_000_000), point(5_000_000)],
        sources: vec![SplitSource::Explicit; 2],
        delays: vec![0, 0, 0],
    };
    assert!(splits_within(&plan, 5_000_001));
    assert!(splits_within(&plan, u64::MAX));
    assert!(!splits_within(&plan, 5_000_000));
    assert!(!splits_within(&plan, 1));
    assert!(!splits_within(&plan, 0));
    let empty = SplitPlan { splits: Vec::new(), sources: Vec::new(), delays: vec![0] };
    assert!(splits_within(&empty, 0));
    let unordered = SplitPlan { splits: vec![point(9), point(1)], sources: Vec::new(), delays: Vec::new() };
    assert!(!splits_within(&unordered, 9));
    assert!(splits_within(&unordered, 10));
}

#[test]
fn given_split_on_a_quiet_point_is_refused() {
    let dir = Path::new("/tmp/scratch");
    let flac = Path::new("/tmp/scratch/target_audio.flac");
    let range = |start: u64, end: u64, quiet: u64| MeasuredRange {
        range: SplitRange { start, end, delay: 0 },
        samples: vec![LoudnessSample { time: quiet, loudness: -50_000 }],
    };
    let given = |t: u64| SplitPoint { time: t, delay: 0 };

    let plan = resolve(&vec![given(1_000_000), given(2_000_000)], &vec![range(1_500_000, 2_500_000, 2_000_000)], 0, -95_000).unwrap();
    assert_eq!(plan.splits.len(), 3);
    assert_eq!(assemble(flac, &plan, dir).err(), Some(AssemblyError::EmptySegment { time: 2_000_000 }));

    let plan = resolve(
        &vec![given(7_000_000), given(3_000_000)],
        &vec![range(6_000_000, 8_000_000, 7_000_000), range(2_000_000, 4_000_000, 3_000_000)],
        0,
        -95_000,
    )
    .unwrap();
    assert_eq!(assemble(flac, &plan, dir).err(), Some(AssemblyError::EmptySegment { time: 3_000_000 }));

    let plan = resolve(&vec![given(1_000_000), given(2_000_001)], &vec![range(1_500_000, 2_500_000, 2_000_000)], 0, -95_000).unwrap();
    assert_eq!(assemble(flac, &plan, dir).map(|jobs| jobs.len()), Ok(4));
}

#[test]
fn splits_of_one_kind_may_stand_at_one_time() {
    let dir = Path::new("/tmp/scratch");
    let flac = Path::new("/tmp/scratch/target_audio.flac");
    let range = |start: u64, end: u64, quiet: u64| MeasuredRange {
        range: SplitRange { start, end, delay: 0 },
        samples: vec![LoudnessSample { time: quiet, loudness: -50_000 }],
    };
    let given = |t: u64| SplitPoint { time: t, delay: 0 };
    let plan = resolve(&vec![given(2_000_000), given(2_000_000)], &Vec::new(), 0, -95_000).unwrap();
    let jobs = assemble(flac, &plan, dir).unwrap();
    assert_eq!(jobs.len(), 3);
    assert_eq!(jobs[1].segment.duration, Some(0));
    let plan = resolve(&Vec::new(), &vec![range(1, 5, 3), range(2, 4, 3)], 0, -95_000).unwrap();
    assert_eq!(assemble(flac, &plan, dir).map(|jobs| jobs.len()), Ok(3));
}
