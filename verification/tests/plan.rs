use split_audio::cli::{SplitPoint, SplitRange};
use split_audio::ffmpeg::{FFmpegError, LoudnessSample};
use split_audio::plan::{resolve, sort_splits, MeasuredRange, PlannedSplit, SplitSource};

fn point(seconds: f64, delay_ms: f64) -> SplitPoint {
    SplitPoint { time: (seconds * 1e6).round() as u64, delay: (delay_ms * 1e3).round() as i64 }
}

fn measured(start: f64, end: f64, delay_ms: f64, samples: &[(f64, f64)]) -> MeasuredRange {
    MeasuredRange {
        range: SplitRange {
            start: (start * 1e6).round() as u64,
            end: (end * 1e6).round() as u64,
            delay: (delay_ms * 1e3).round() as i64,
        },
        samples: samples
            .iter()
            .map(|(t, l)| LoudnessSample { time: (t * 1e6).round() as u64, loudness: (l * 1e3).round() as i64 })
            .collect(),
    }
}

#[test]
fn explicit_points_are_sorted() {
    let plan = resolve(&vec![point(5.0, 200.0), point(2.0, -100.0)], &Vec::new(), 35_000, -95_000).unwrap();
    assert_eq!(plan.splits, vec![point(2.0, -100.0), point(5.0, 200.0)]);
    assert_eq!(plan.delays, vec![35_000, -100_000, 200_000]);
    assert_eq!(plan.sources, vec![SplitSource::Explicit, SplitSource::Explicit]);
    assert_eq!(plan.times(), vec![2_000_000, 5_000_000]);
}

#[test]
fn empty_plan_has_the_initial_delay_alone() {
    let plan = resolve(&Vec::new(), &Vec::new(), -7, -95_000).unwrap();
    assert!(plan.splits.is_empty());
    assert!(plan.sources.is_empty());
    assert_eq!(plan.delays, vec![-7]);
}

#[test]
fn ranges_give_their_quietest_point() {
    let ranges = vec![
        measured(10.0, 12.0, 40.0, &[(10.5, -30.0), (11.0, -60.0), (11.5, -97.0), (13.0, -80.0)]),
        measured(1.0, 2.0, -15.5, &[(1.25, -20.0), (1.5, -20.0)]),
    ];
    let plan = resolve(&vec![point(5.0, 200.0)], &ranges, 0, -95_000).unwrap();
    assert_eq!(plan.splits, vec![point(1.25, -15.5), point(5.0, 200.0), point(11.0, 40.0)]);
    assert_eq!(plan.delays, vec![0, -15_500, 200_000, 40_000]);
    assert_eq!(
        plan.sources,
        vec![
            SplitSource::Range { start: 1_000_000, end: 2_000_000 },
            SplitSource::Explicit,
            SplitSource::Range { start: 10_000_000, end: 12_000_000 },
        ]
    );
}

#[test]
fn one_delay_more_than_splits() {
    for n in 0..12usize {
        let explicit: Vec<SplitPoint> = (0..n).map(|i| point(((i * 7) % 5) as f64, i as f64)).collect();
        let ranges: Vec<MeasuredRange> =
            (0..n / 2).map(|i| measured(i as f64, i as f64 + 1.0, 1.0, &[(i as f64 + 0.5, -40.0)])).collect();
        let plan = resolve(&explicit, &ranges, 1, -95_000).unwrap();
        assert_eq!(plan.splits.len(), n + n / 2);
        assert_eq!(plan.delays.len(), plan.splits.len() + 1);
        assert_eq!(plan.sources.len(), plan.splits.len());
        assert!(plan.splits.windows(2).all(|w| w[0].time <= w[1].time));
        for (i, p) in plan.splits.iter().enumerate() {
            assert_eq!(plan.delays[i + 1], p.delay);
        }
    }
}

#[test]
fn colliding_points_keep_their_order() {
    let ranges = vec![measured(1.0, 3.0, 3.0, &[(2.0, -50.0)])];
    let plan = resolve(&vec![point(2.0, 1.0), point(1.0, 9.0), point(2.0, 2.0)], &ranges, 0, -95_000).unwrap();
    assert_eq!(plan.splits, vec![point(1.0, 9.0), point(2.0, 1.0), point(2.0, 2.0), point(2.0, 3.0)]);
    assert_eq!(plan.delays, vec![0, 9_000, 1_000, 2_000, 3_000]);
    assert_eq!(plan.sources[3], SplitSource::Range { start: 1_000_000, end: 3_000_000 });
}

#[test]
fn first_silent_range_is_reported() {
    let ranges = vec![
        measured(1.0, 2.0, 0.0, &[(1.5, -40.0)]),
        measured(3.0, 4.0, 0.0, &[(3.5, -96.0), (5.0, -20.0)]),
        measured(6.0, 7.0, 0.0, &[]),
    ];
    match resolve(&vec![point(5.0, 200.0)], &ranges, 0, -95_000) {
        Err(FFmpegError::QuietPointNotFound { start, end, threshold }) => {
            assert_eq!((start, end, threshold), (3_000_000, 4_000_000, -95_000));
        }
        other => panic!("{:?}", other),
    }
    assert!(resolve(&vec![point(5.0, 200.0)], &ranges, 0, -97_000).is_err());
    assert!(resolve(&vec![point(5.0, 200.0)], &ranges[..2].to_vec(), 0, -97_000).is_ok());
}

#[test]
fn sorting_is_stable() {
    let entry = |t: u64, d: i64| PlannedSplit { point: SplitPoint { time: t, delay: d }, source: SplitSource::Explicit };
    let input = vec![entry(3, 0), entry(1, 1), entry(3, 2), entry(2, 3), entry(1, 4), entry(3, 5), entry(0, 6)];
    let sorted = sort_splits(&input);
    assert_eq!(sorted, vec![entry(0, 6), entry(1, 1), entry(1, 4), entry(2, 3), entry(3, 0), entry(3, 2), entry(3, 5)]);
    let mut expected = input.clone();
    expected.sort_by_key(|e| e.point.time);
    assert_eq!(sorted, expected);
    assert_eq!(sort_splits(&Vec::new()), Vec::new());
}
