use split_audio::ffmpeg::{
    check_dependency, check_ffmpeg_installation, check_ffmpeg_version, check_version_groups, ffmpeg_outcome,
    installation_verdict, probe_outcome, read_version, CommandOutput, FFmpegCheckResult, FFmpegError, FFmpegVersionInfo,
    InstallationFault, Launch, FULL_VERSION_PATTERN, VERSION_PATTERN,
};

fn ran(stdout: &str) -> CommandOutput {
    CommandOutput { success: true, stdout: stdout.to_string(), stderr: String::new() }
}

fn groups(g: &[Option<&str>]) -> Vec<Option<String>> {
    g.iter().map(|s| s.map(|s| s.to_string())).collect()
}

const BANNER: &str = "ffmpeg version 7.1.1 Copyright (c) 2000-2025 the FFmpeg developers\nbuilt with gcc 14\n";

#[test]
fn expected_version_is_accepted() {
    assert!(check_ffmpeg_version(&ran(BANNER)).is_ok());
    assert!(check_ffmpeg_version(&ran("ffmpeg version 7.1")).is_ok());
    assert!(check_ffmpeg_version(&ran("x ffmpeg version 7.1-static https://johnvansickle.com/ffmpeg/")).is_ok());
}

#[test]
fn other_version_is_a_mismatch() {
    match check_ffmpeg_version(&ran("ffmpeg version 6.0 Copyright")) {
        Err(FFmpegError::VersionMismatch { expected_major, expected_minor, found_major, found_minor }) => {
            assert_eq!((expected_major, expected_minor, found_major, found_minor), (7, 1, 6, 0));
        }
        other => panic!("{:?}", other),
    }
    assert!(matches!(
        check_ffmpeg_version(&ran("ffmpeg version 7.10")),
        Err(FFmpegError::VersionMismatch { found_major: 7, found_minor: 10, .. })
    ));
    assert!(matches!(
        check_ffmpeg_version(&ran("ffmpeg version 07.01")),
        Ok(())
    ));
}

#[test]
fn banner_without_version_cannot_be_read() {
    assert!(matches!(check_ffmpeg_version(&ran("ffmpeg version N-12345-gabcdef")), Err(FFmpegError::VersionParseError)));
    assert!(matches!(check_ffmpeg_version(&ran("")), Err(FFmpegError::VersionParseError)));
    assert!(matches!(check_ffmpeg_version(&ran("ffmpeg version 7")), Err(FFmpegError::VersionParseError)));
}

#[test]
fn version_number_that_does_not_fit_is_refused() {
    assert!(matches!(check_ffmpeg_version(&ran("ffmpeg version 4294967296.1")), Err(FFmpegError::ParseInt)));
    assert!(matches!(check_ffmpeg_version(&ran("ffmpeg version 7.99999999999")), Err(FFmpegError::ParseInt)));
    assert!(matches!(check_ffmpeg_version(&ran("ffmpeg version ٧.١")), Err(FFmpegError::ParseInt)));
}

#[test]
fn failed_version_query_is_reported() {
    let output = CommandOutput { success: false, stdout: BANNER.to_string(), stderr: String::new() };
    assert!(matches!(check_ffmpeg_version(&output), Err(FFmpegError::FFmpegVersionCheckFailed)));
}

#[test]
fn version_groups_are_judged_in_their_order() {
    assert!(check_version_groups(&Some(groups(&[Some("w"), Some("7"), Some("1")]))).is_ok());
    assert!(matches!(check_version_groups(&None), Err(FFmpegError::VersionParseError)));
    assert!(matches!(check_version_groups(&Some(groups(&[Some("w")]))), Err(FFmpegError::VersionParseError)));
    assert!(matches!(check_version_groups(&Some(groups(&[Some("w"), None, Some("x")]))), Err(FFmpegError::VersionParseError)));
    assert!(matches!(check_version_groups(&Some(groups(&[Some("w"), Some("x"), None]))), Err(FFmpegError::ParseInt)));
    assert!(matches!(check_version_groups(&Some(groups(&[Some("w"), Some("7"), None]))), Err(FFmpegError::VersionParseError)));
    assert!(matches!(check_version_groups(&Some(groups(&[Some("w"), Some("7"), Some("")]))), Err(FFmpegError::ParseInt)));
    assert!(matches!(
        check_version_groups(&Some(groups(&[Some("w"), Some("8"), Some("1")]))),
        Err(FFmpegError::VersionMismatch { found_major: 8, found_minor: 1, .. })
    ));
}

#[test]
fn patterns_are_accepted_by_the_engine_of_patterns() {
    let re = regex::Regex::new(VERSION_PATTERN).unwrap();
    let caps = re.captures(BANNER).unwrap();
    assert_eq!((&caps[1], &caps[2]), ("7", "1"));
    let re = regex::Regex::new(FULL_VERSION_PATTERN).unwrap();
    let caps = re.captures(BANNER).unwrap();
    assert_eq!((&caps[1], &caps[2], &caps[3]), ("7", "1", "1"));
}

#[test]
fn installation_is_summed_up() {
    let found = check_ffmpeg_installation(
        &Launch::Finished(ran(BANNER)),
        &Launch::Finished(ran("ffprobe version 7.1.1")),
        &Launch::Finished(ran("Filters:\n T.. ebur128           A->N       EBU R128 scanner.\n")),
    );
    assert_eq!(
        found,
        FFmpegCheckResult {
            ffmpeg_available: true,
            ffmpeg_version: Some(FFmpegVersionInfo { major: 7, minor: 1, patch: 1, is_compatible: true, is_tested_version: true }),
            ffprobe_available: true,
            ebur128_filter_available: true,
            error: None,
        }
    );
    assert_eq!(installation_verdict(&found), Ok(()));
}

#[test]
fn version_is_read_with_zero_for_what_is_missing() {
    assert_eq!(
        read_version(&groups(&[Some("w"), Some("3"), Some("4"), None])),
        FFmpegVersionInfo { major: 3, minor: 4, patch: 0, is_compatible: false, is_tested_version: false }
    );
    assert_eq!(
        read_version(&groups(&[Some("w"), Some("4"), Some("x"), Some("99999999999")])),
        FFmpegVersionInfo { major: 4, minor: 0, patch: 0, is_compatible: true, is_tested_version: false }
    );
    assert_eq!(
        read_version(&groups(&[Some("w"), Some("7"), Some("1")])),
        FFmpegVersionInfo { major: 7, minor: 1, patch: 0, is_compatible: true, is_tested_version: true }
    );
    let found = check_ffmpeg_installation(&Launch::Finished(ran("ffmpeg version 6.0-full")), &Launch::NotFound, &Launch::NotFound);
    assert_eq!(
        found.ffmpeg_version,
        Some(FFmpegVersionInfo { major: 6, minor: 0, patch: 0, is_compatible: true, is_tested_version: false })
    );
    let found = check_ffmpeg_installation(&Launch::Finished(ran("ffmpeg version git")), &Launch::NotFound, &Launch::NotFound);
    assert_eq!((found.ffmpeg_available, found.ffmpeg_version), (true, None));
}

#[test]
fn missing_engine_is_an_error() {
    let found = check_ffmpeg_installation(&Launch::NotFound, &Launch::Finished(ran("")), &Launch::NotFound);
    assert_eq!(
        found,
        FFmpegCheckResult {
            ffmpeg_available: false,
            ffmpeg_version: None,
            ffprobe_available: true,
            ebur128_filter_available: false,
            error: Some("FFmpeg not found in PATH".to_string()),
        }
    );
    assert_eq!(installation_verdict(&found), Err(InstallationFault::FfmpegMissing("FFmpeg not found in PATH".to_string())));
    let found = check_ffmpeg_installation(&Launch::Failed("permission denied".to_string()), &Launch::NotFound, &Launch::NotFound);
    assert_eq!(found.error, Some("Failed to check FFmpeg: permission denied".to_string()));
    assert!(!found.ffprobe_available);
}

#[test]
fn engine_that_fails_is_not_available() {
    let failed = CommandOutput { success: false, stdout: BANNER.to_string(), stderr: String::new() };
    let found = check_ffmpeg_installation(
        &Launch::Finished(failed.clone()),
        &Launch::Finished(failed.clone()),
        &Launch::Finished(CommandOutput { success: false, stdout: "ebur128".to_string(), stderr: String::new() }),
    );
    assert_eq!(
        found,
        FFmpegCheckResult {
            ffmpeg_available: false,
            ffmpeg_version: None,
            ffprobe_available: false,
            ebur128_filter_available: true,
            error: None,
        }
    );
    assert_eq!(installation_verdict(&found), Err(InstallationFault::FfprobeMissing));
}

#[test]
fn filter_list_without_the_loudness_filter() {
    let found = check_ffmpeg_installation(
        &Launch::Finished(ran(BANNER)),
        &Launch::Finished(ran("")),
        &Launch::Finished(ran("Filters:\n ... ebur12 x\n ... loudnorm\n")),
    );
    assert!(!found.ebur128_filter_available);
}

#[test]
fn dependency_is_there_where_it_starts() {
    assert!(check_dependency("ffprobe", &Launch::Finished(ran(""))).is_ok());
    assert!(check_dependency("ffprobe", &Launch::Finished(CommandOutput::default())).is_ok());
    match check_dependency("ffprobe", &Launch::NotFound) {
        Err(FFmpegError::CommandNotFound(name)) => assert_eq!(name, "ffprobe"),
        other => panic!("{:?}", other),
    }
    match check_dependency("ffprobe", &Launch::Failed("permission denied".to_string())) {
        Err(FFmpegError::CommandFailed(name, why)) => assert_eq!((name.as_str(), why.as_str()), ("ffprobe", "permission denied")),
        other => panic!("{:?}", other),
    }
}

#[test]
fn failed_run_names_its_arguments() {
    let args: Vec<String> = ["-y", "-i", "in.mkv", "out.flac"].iter().map(|s| s.to_string()).collect();
    assert!(ffmpeg_outcome(&args, true).is_ok());
    match ffmpeg_outcome(&args, false) {
        Err(FFmpegError::CommandFailed(what, why)) => {
            assert_eq!(what, "-y -i in.mkv out.flac");
            assert_eq!(what, args.join(" "));
            assert_eq!(why, "FFmpeg failed");
        }
        other => panic!("{:?}", other),
    }
    match ffmpeg_outcome(&Vec::new(), false) {
        Err(FFmpegError::CommandFailed(what, _)) => assert_eq!(what, ""),
        other => panic!("{:?}", other),
    }
    match ffmpeg_outcome(&vec!["".to_string(), "a".to_string(), "".to_string()], false) {
        Err(FFmpegError::CommandFailed(what, _)) => assert_eq!(what, " a "),
        other => panic!("{:?}", other),
    }
}

#[test]
fn answer_of_a_failed_question_is_not_read() {
    assert!(probe_outcome("probe_audio_stream", &ran("0,h264,video\n")).is_ok());
    assert!(probe_outcome("probe_audio_stream", &ran("")).is_ok());
    let failed = CommandOutput { success: false, stdout: "0,h264,video\n".to_string(), stderr: "moov atom not found".to_string() };
    match probe_outcome("build_stream_map_args", &failed) {
        Err(FFmpegError::CommandFailed(what, why)) => {
            assert_eq!((what.as_str(), why.as_str()), ("build_stream_map_args", "moov atom not found"));
        }
        other => panic!("{:?}", other),
    }
}
