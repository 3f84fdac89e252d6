use split_audio::ffmpeg::{
    find_quietest_point, loudness_sample, loudness_samples, quietest_point, FFmpegError, LoudnessSample,
    LOUDNESS_PATTERN,
};

fn sample(seconds: f64, lufs: f64) -> LoudnessSample {
    LoudnessSample { time: (seconds * 1e6).round() as u64, loudness: (lufs * 1e3).round() as i64 }
}

fn log_line(t: &str, m: &str) -> String {
    format!(
        "[Parsed_ebur128_0 @ 0x55d5c8a0b2c0] t: {}  TARGET:-23 LUFS    M: {} S:-120.7     I: -70.0 LUFS       LRA:   0.0 LU\n",
        t, m
    )
}

#[test]
fn silence_is_no_quiet_point() {
    let samples = vec![sample(1.0, -90.0), sample(2.0, -20.0), sample(3.0, -96.0)];
    let found = quietest_point(&samples, 0, 10_000_000, -95_000);
    assert_eq!(found, Some(LoudnessSample { time: 1_000_000, loudness: -90_000 }));
}

#[test]
fn threshold_itself_counts_as_silence() {
    let samples = vec![sample(1.0, -95.0), sample(2.0, -94.999)];
    assert_eq!(quietest_point(&samples, 0, 10_000_000, -95_000), Some(sample(2.0, -94.999)));
    let samples = vec![sample(1.0, -95.0), sample(2.0, -120.0)];
    assert_eq!(quietest_point(&samples, 0, 10_000_000, -95_000), None);
}

#[test]
fn quiet_point_lies_in_the_range() {
    let samples = vec![sample(0.5, -80.0), sample(1.0, -30.0), sample(2.0, -40.0), sample(3.0, -35.0), sample(3.5, -85.0)];
    assert_eq!(quietest_point(&samples, 1_000_000, 3_000_000, -95_000), Some(sample(2.0, -40.0)));
    assert_eq!(quietest_point(&samples, 500_000, 3_000_000, -95_000), Some(sample(0.5, -80.0)));
    assert_eq!(quietest_point(&samples, 1_000_000, 3_500_000, -95_000), Some(sample(3.5, -85.0)));
    assert_eq!(quietest_point(&samples, 4_000_000, 5_000_000, -95_000), None);
    assert_eq!(quietest_point(&Vec::new(), 0, 5_000_000, -95_000), None);
}

#[test]
fn earliest_of_equally_quiet_points_wins() {
    let samples = vec![sample(3.0, -50.0), sample(1.0, -50.0), sample(2.0, -50.0), sample(1.5, -49.0)];
    assert_eq!(quietest_point(&samples, 0, 10_000_000, -95_000), Some(sample(1.0, -50.0)));
}

#[test]
fn quiet_point_is_never_at_or_below_threshold() {
    let samples: Vec<LoudnessSample> =
        (0..200).map(|i| sample(i as f64 * 0.1, -120.0 + ((i * 37) % 110) as f64)).collect();
    for threshold in [-120_000i64, -95_000, -60_000, -20_000, -11_000, 0] {
        match quietest_point(&samples, 0, 20_000_000, threshold) {
            Some(found) => {
                assert!(found.loudness > threshold);
                assert!(samples.iter().all(|s| s.loudness <= threshold || s.loudness >= found.loudness));
            }
            None => assert!(samples.iter().all(|s| s.loudness <= threshold)),
        }
    }
}

#[test]
fn report_line_is_read() {
    let groups = vec![Some("whole".to_string()), Some("1.5".to_string()), Some("-23.4".to_string())];
    assert_eq!(loudness_sample(&groups), Some(LoudnessSample { time: 1_500_000, loudness: -23_400 }));
    let groups = vec![Some("whole".to_string()), Some("1.2.3".to_string()), Some("-23.4".to_string())];
    assert_eq!(loudness_sample(&groups), None);
    let groups = vec![Some("whole".to_string()), Some("1.5".to_string()), Some("-".to_string())];
    assert_eq!(loudness_sample(&groups), None);
    let groups = vec![Some("whole".to_string()), None, Some("-23.4".to_string())];
    assert_eq!(loudness_sample(&groups), None);
    let groups = vec![Some("whole".to_string()), Some("1.5".to_string())];
    assert_eq!(loudness_sample(&groups), None);
    let lines = vec![
        vec![Some("a".to_string()), Some("1".to_string()), Some("-30".to_string())],
        vec![Some("b".to_string()), Some("..".to_string()), Some("-30".to_string())],
        vec![Some("c".to_string()), Some("2".to_string()), Some("-31.5".to_string())],
    ];
    assert_eq!(
        loudness_samples(&lines),
        vec![LoudnessSample { time: 1_000_000, loudness: -30_000 }, LoudnessSample { time: 2_000_000, loudness: -31_500 }]
    );
}

#[test]
fn quiet_point_is_found_in_the_log() {
    let log = format!(
        "Input #0, flac, from 'target_audio.flac':\n{}{}{}[Parsed_ebur128_0 @ 0x55d5c8a0b2c0] Summary:\n\n  Integrated loudness:\n    I:         -23.0 LUFS\n",
        log_line("1.0", "-90.0"),
        log_line("2.0", "-20.0"),
        log_line("3.0", "-96.0"),
    );
    let found = find_quietest_point(&log, 0, 10_000_000, -95_000, false).unwrap();
    assert_eq!(found.time, 1_000_000);
    assert_eq!(found.loudness, -90_000);
    assert_eq!(found.debug_output, None);
}

#[test]
fn quiet_point_agrees_with_the_pattern() {
    let log = format!("{}{}", log_line("0.0999773", "-120.7"), log_line("0.199977", "-70.3"));
    let re = regex::Regex::new(LOUDNESS_PATTERN).unwrap();
    let caps: Vec<(String, String)> =
        re.captures_iter(&log).map(|c| (c[1].to_string(), c[2].to_string())).collect();
    assert_eq!(caps, vec![("0.0999773".to_string(), "-120.7".to_string()), ("0.199977".to_string(), "-70.3".to_string())]);
    let found = find_quietest_point(&log, 0, 1_000_000, -95_000, false).unwrap();
    assert_eq!((found.time, found.loudness), (199_977, -70_300));
    let found = find_quietest_point(&log, 0, 1_000_000, -130_000, false).unwrap();
    assert_eq!((found.time, found.loudness), (99_977, -120_700));
}

#[test]
fn debug_output_keeps_the_log() {
    let log = log_line("1.0", "-50.0");
    let found = find_quietest_point(&log, 0, 2_000_000, -95_000, true).unwrap();
    assert_eq!(
        found.debug_output,
        Some(format!("\n--- FFMPEG STDERR for quietest point ---\n{}\n--- END FFMPEG STDERR ---", log))
    );
}

#[test]
fn no_audible_point_is_an_error_with_its_range() {
    let log = format!("{}{}", log_line("1.0", "-96.0"), log_line("2.0", "-120.7"));
    match find_quietest_point(&log, 500_000, 2_500_000, -95_000, false) {
        Err(FFmpegError::QuietPointNotFound { start, end, threshold }) => {
            assert_eq!((start, end, threshold), (500_000, 2_500_000, -95_000));
        }
        other => panic!("{:?}", other),
    }
    assert!(matches!(
        find_quietest_point("no report at all", 0, 1, -95_000, true),
        Err(FFmpegError::QuietPointNotFound { .. })
    ));
}
