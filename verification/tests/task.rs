use split_audio::cli::{Args, SplitPoint, SplitRange};
use split_audio::task::{resolve_settings, ConfigError, Settings, Task};
use split_audio::util::path_to_str;
use split_audio::workflow::{
    encoded_file_name, final_extension, is_confirmed, run_mode, stream_name, task_of, InspectWithoutInput, Mode,
};
use std::path::Path;

fn bare_args() -> Args {
    Args {
        input: None,
        output: None,
        stream: None,
        task: None,
        initial_delay: 0,
        splits: Vec::new(),
        split_ranges: Vec::new(),
        bitrate: None,
        silence_threshold: -95_000,
        debug: false,
        ignore_ffmpeg_version: false,
        check_ffmpeg: false,
        inspect: false,
        write_task_file: None,
        yes: false,
        fit_length: false,
    }
}

fn full_task() -> Task {
    Task {
        input: Some("task_in.mkv".to_string()),
        output: Some("task_out.mkv".to_string()),
        stream: Some(3),
        initial_delay: Some(-40_000),
        splits: vec![SplitPoint { time: 1_000_000, delay: 5_000 }],
        split_ranges: vec![SplitRange { start: 2_000_000, end: 3_000_000, delay: 0 }],
        bitrate: Some("80k".to_string()),
        silence_threshold: Some(-70_000),
        fit_length: Some(true),
    }
}

#[test]
fn task_file_fills_what_the_command_line_leaves_open() {
    let settings = resolve_settings(&bare_args(), Some(&full_task())).unwrap();
    assert_eq!(
        settings,
        Settings {
            input: "task_in.mkv".to_string(),
            output: "task_out.mkv".to_string(),
            stream: 3,
            initial_delay: -40_000,
            bitrate: Some("80k".to_string()),
            silence_threshold: -70_000,
            splits: vec![SplitPoint { time: 1_000_000, delay: 5_000 }],
            split_ranges: vec![SplitRange { start: 2_000_000, end: 3_000_000, delay: 0 }],
            fit_length: true,
        }
    );
}

#[test]
fn command_line_goes_before_the_task_file() {
    let args = Args {
        input: Some("in.mkv".to_string()),
        output: Some("out.mkv".to_string()),
        stream: Some(1),
        initial_delay: 250_000,
        splits: vec![SplitPoint { time: 9, delay: 9 }, SplitPoint { time: 8, delay: 8 }],
        split_ranges: vec![SplitRange { start: 4, end: 5, delay: 6 }],
        bitrate: Some("640k".to_string()),
        silence_threshold: -80_000,
        fit_length: false,
        ..bare_args()
    };
    let settings = resolve_settings(&args, Some(&full_task())).unwrap();
    assert_eq!(
        settings,
        Settings {
            input: "in.mkv".to_string(),
            output: "out.mkv".to_string(),
            stream: 1,
            initial_delay: 250_000,
            bitrate: Some("640k".to_string()),
            silence_threshold: -80_000,
            splits: vec![SplitPoint { time: 9, delay: 9 }, SplitPoint { time: 8, delay: 8 }],
            split_ranges: vec![SplitRange { start: 4, end: 5, delay: 6 }],
            fit_length: true,
        }
    );
}

#[test]
fn defaults_stand_where_nothing_is_given() {
    let args = Args { input: Some("a".to_string()), output: Some("b".to_string()), stream: Some(0), ..bare_args() };
    let want = Settings {
        input: "a".to_string(),
        output: "b".to_string(),
        stream: 0,
        initial_delay: 0,
        bitrate: None,
        silence_threshold: -95_000,
        splits: Vec::new(),
        split_ranges: Vec::new(),
        fit_length: false,
    };
    assert_eq!(resolve_settings(&args, None).unwrap(), want);
    assert_eq!(resolve_settings(&args, Some(&Task::default())).unwrap(), want);
    let task = Task { fit_length: Some(false), ..Task::default() };
    assert_eq!(resolve_settings(&Args { fit_length: true, ..args.clone() }, Some(&task)).unwrap().fit_length, true);
}

#[test]
fn incomplete_job_is_refused() {
    assert_eq!(resolve_settings(&bare_args(), None), Err(ConfigError::MissingInput));
    let args = Args { input: Some("a".to_string()), ..bare_args() };
    assert_eq!(resolve_settings(&args, None), Err(ConfigError::MissingOutput));
    let args = Args { output: Some("b".to_string()), ..args };
    assert_eq!(resolve_settings(&args, None), Err(ConfigError::MissingStream));
    assert_eq!(resolve_settings(&args, Some(&Task::default())), Err(ConfigError::MissingStream));
    let args = Args { output: Some("a".to_string()), stream: Some(1), ..args };
    assert_eq!(resolve_settings(&args, None), Err(ConfigError::SameInputAndOutput));
    let args = Args { output: Some("task_in.mkv".to_string()), ..bare_args() };
    assert_eq!(resolve_settings(&args, Some(&full_task())), Err(ConfigError::SameInputAndOutput));
    let task = Task { stream: None, output: Some("task_in.mkv".to_string()), ..full_task() };
    assert_eq!(resolve_settings(&bare_args(), Some(&task)), Err(ConfigError::SameInputAndOutput));
}

#[test]
fn mode_is_chosen_from_the_flags() {
    assert_eq!(run_mode(&bare_args()), Ok(Mode::Process));
    assert_eq!(run_mode(&Args { check_ffmpeg: true, inspect: true, ..bare_args() }), Ok(Mode::CheckFfmpeg));
    assert_eq!(run_mode(&Args { inspect: true, ..bare_args() }), Err(InspectWithoutInput));
    assert_eq!(
        run_mode(&Args { inspect: true, input: Some("movie.mkv".to_string()), ..bare_args() }),
        Ok(Mode::Inspect("movie.mkv".to_string()))
    );
}

#[test]
fn stream_is_named_by_title_then_language() {
    assert_eq!(stream_name("Commentary", "eng"), "Commentary");
    assert_eq!(stream_name("", "eng"), "eng");
    assert_eq!(stream_name("", ""), "Untitled");
}

#[test]
fn codec_decides_the_file_ending() {
    for codec in ["aac", "ac3", "dts", "mp3", "opus"] {
        assert_eq!(final_extension(codec), codec);
        assert_eq!(encoded_file_name(codec), format!("final_for_remux.{}", codec));
    }
    for codec in ["flac", "vorbis", "eac3", "truehd", "", "AAC"] {
        assert_eq!(final_extension(codec), "mka");
    }
    assert_eq!(encoded_file_name("pcm_s16le"), "final_for_remux.mka");
}

#[test]
fn only_y_confirms() {
    for answer in ["y", "Y", " y\n", "\tY \r\n"] {
        assert!(is_confirmed(answer), "{:?}", answer);
    }
    for answer in ["", "\n", "n", "yes", "yy", "y y", "N", "ý"] {
        assert!(!is_confirmed(answer), "{:?}", answer);
    }
}

#[test]
fn settled_job_is_written_as_a_task() {
    let settings = resolve_settings(&bare_args(), Some(&full_task())).unwrap();
    assert_eq!(task_of(&settings, "80k"), full_task());
    let task = task_of(&Settings { bitrate: None, fit_length: false, ..settings }, "~128k");
    assert_eq!(task.bitrate, Some("~128k".to_string()));
    assert_eq!(task.fit_length, Some(false));
}

#[test]
fn path_is_handed_out_as_text() {
    assert_eq!(path_to_str(Path::new("/tmp/split_audio_1/target_audio.flac")), Ok("/tmp/split_audio_1/target_audio.flac"));
    assert_eq!(path_to_str(Path::new("")), Ok(""));
    assert_eq!(path_to_str(Path::new("señal/音.flac")), Ok("señal/音.flac"));
}
