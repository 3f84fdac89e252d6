use split_audio::audio_processing::{
    adjusted_file_name, adjustment, concat_audio_segments, concat_request, extract_range, pad_start,
    check_order, part_file_name, segment_descriptors, segment_job, split_and_delay_audio, trim_start, Adjustment,
    AssemblyError, SegmentDescriptor,
};
use std::path::{Path, PathBuf};

fn strs(v: &[&str]) -> Vec<String> {
    v.iter().map(|s| s.to_string()).collect()
}

#[test]
fn segments_lie_end_to_end() {
    let splits = vec![2_000_000u64, 5_000_000, 5_000_000, 9_500_000];
    let delays = vec![10i64, -20, 30, 0, -50];
    let segments = segment_descriptors(&splits, &delays);
    assert_eq!(
        segments,
        vec![
            SegmentDescriptor { index: 0, start_time: 0, duration: Some(2_000_000), delay: 10 },
            SegmentDescriptor { index: 1, start_time: 2_000_000, duration: Some(3_000_000), delay: -20 },
            SegmentDescriptor { index: 2, start_time: 5_000_000, duration: Some(0), delay: 30 },
            SegmentDescriptor { index: 3, start_time: 5_000_000, duration: Some(4_500_000), delay: 0 },
            SegmentDescriptor { index: 4, start_time: 9_500_000, duration: None, delay: -50 },
        ]
    );
    let stream_duration = 12_000_000u64;
    let mut covered = 0u64;
    for s in &segments {
        assert_eq!(s.start_time, covered);
        covered += s.duration.unwrap_or(stream_duration - s.start_time);
    }
    assert_eq!(covered, stream_duration);
}

#[test]
fn stream_without_splits_is_one_segment() {
    assert_eq!(
        segment_descriptors(&Vec::new(), &vec![250_000]),
        vec![SegmentDescriptor { index: 0, start_time: 0, duration: None, delay: 250_000 }]
    );
}

#[test]
fn every_moment_lies_in_one_segment() {
    let splits = vec![1_000u64, 1_000, 4_000, 7_500];
    let segments = segment_descriptors(&splits, &vec![0; 5]);
    let stream_duration = 9_000u64;
    for t in 0..stream_duration {
        let holding: Vec<usize> = segments
            .iter()
            .filter(|s| {
                let end = match s.duration {
                    Some(d) => s.start_time + d,
                    None => stream_duration,
                };
                s.start_time <= t && t < end
            })
            .map(|s| s.index)
            .collect();
        assert_eq!(holding.len(), 1, "{}", t);
    }
}

#[test]
fn delay_decides_the_adjustment() {
    assert_eq!(adjustment(0), Adjustment::Keep);
    assert_eq!(adjustment(200_500), Adjustment::Pad(200_500));
    assert_eq!(adjustment(-100_000), Adjustment::Trim(100_000));
    assert_eq!(adjustment(i64::MAX), Adjustment::Pad(i64::MAX as u64));
    assert_eq!(adjustment(i64::MIN), Adjustment::Trim(1u64 << 63));
}

#[test]
fn scratch_files_are_numbered_from_one() {
    assert_eq!(part_file_name(0), "part_1.flac");
    assert_eq!(part_file_name(11), "part_12.flac");
    assert_eq!(adjusted_file_name(0, true), "part_1_delayed.flac");
    assert_eq!(adjusted_file_name(2, false), "part_3_trimmed.flac");
}

#[test]
fn range_requests() {
    assert_eq!(
        extract_range("/tmp/a.flac", 2_000_000, Some(3_500_000), "/tmp/part_2.flac"),
        strs(&["-y", "-i", "/tmp/a.flac", "-ss", "2", "-t", "3.5", "-af", "asetpts=PTS-STARTPTS", "-c:a", "flac", "/tmp/part_2.flac"])
    );
    assert_eq!(
        extract_range("/tmp/a.flac", 9_500_000, None, "/tmp/part_5.flac"),
        strs(&["-y", "-i", "/tmp/a.flac", "-ss", "9.5", "-af", "asetpts=PTS-STARTPTS", "-c:a", "flac", "/tmp/part_5.flac"])
    );
    assert_eq!(
        pad_start("p.flac", 200_500, "d.flac"),
        strs(&["-y", "-i", "p.flac", "-filter_complex", "adelay=delays=200.5:all=1,asetpts=PTS-STARTPTS", "-c:a", "flac", "d.flac"])
    );
    assert_eq!(
        trim_start("p.flac", 100_000, "t.flac"),
        strs(&["-y", "-i", "p.flac", "-ss", "0.1", "-af", "asetpts=PTS-STARTPTS", "-c:a", "flac", "t.flac"])
    );
}

#[test]
fn job_pads_trims_or_keeps() {
    let dir = Path::new("/tmp/scratch");
    let keep = segment_job("/tmp/a.flac", SegmentDescriptor { index: 0, start_time: 0, duration: Some(1_000_000), delay: 0 }, dir).unwrap();
    assert_eq!(keep.part, dir.join("part_1.flac"));
    assert_eq!(keep.adjust, None);
    assert_eq!(keep.adjusted, None);
    assert_eq!(keep.output(), &dir.join("part_1.flac"));
    assert_eq!(keep.extract.last().unwrap(), dir.join("part_1.flac").to_str().unwrap());

    let pad = segment_job("/tmp/a.flac", SegmentDescriptor { index: 1, start_time: 1_000_000, duration: None, delay: 250_000 }, dir).unwrap();
    assert_eq!(pad.part, dir.join("part_2.flac"));
    assert_eq!(pad.adjusted, Some(dir.join("part_2_delayed.flac")));
    assert_eq!(pad.output(), &dir.join("part_2_delayed.flac"));
    assert_eq!(
        pad.adjust,
        Some(pad_start(dir.join("part_2.flac").to_str().unwrap(), 250_000, dir.join("part_2_delayed.flac").to_str().unwrap()))
    );

    let trim = segment_job("/tmp/a.flac", SegmentDescriptor { index: 2, start_time: 1_000_000, duration: None, delay: -250_000 }, dir).unwrap();
    assert_eq!(trim.adjusted, Some(dir.join("part_3_trimmed.flac")));
    assert_eq!(
        trim.adjust,
        Some(trim_start(dir.join("part_3.flac").to_str().unwrap(), 250_000, dir.join("part_3_trimmed.flac").to_str().unwrap()))
    );
}

#[test]
fn stream_is_cut_at_the_splits() {
    let dir = Path::new("/tmp/scratch");
    let jobs = split_and_delay_audio(Path::new("/tmp/scratch/target_audio.flac"), &vec![2_000_000, 5_000_000], &vec![100_000, -100_000, 0], dir).unwrap();
    assert_eq!(jobs.len(), 3);
    let part = |n: usize| dir.join(format!("part_{}.flac", n)).to_str().unwrap().to_string();
    assert_eq!(
        jobs[0].extract,
        strs(&["-y", "-i", "/tmp/scratch/target_audio.flac", "-ss", "0", "-t", "2", "-af", "asetpts=PTS-STARTPTS", "-c:a", "flac", &part(1)])
    );
    assert_eq!(
        jobs[1].extract,
        strs(&["-y", "-i", "/tmp/scratch/target_audio.flac", "-ss", "2", "-t", "3", "-af", "asetpts=PTS-STARTPTS", "-c:a", "flac", &part(2)])
    );
    assert_eq!(
        jobs[2].extract,
        strs(&["-y", "-i", "/tmp/scratch/target_audio.flac", "-ss", "5", "-af", "asetpts=PTS-STARTPTS", "-c:a", "flac", &part(3)])
    );
    assert_eq!(jobs[0].output(), &dir.join("part_1_delayed.flac"));
    assert_eq!(jobs[1].output(), &dir.join("part_2_trimmed.flac"));
    assert_eq!(jobs[2].output(), &dir.join("part_3.flac"));
    for (i, job) in jobs.iter().enumerate() {
        assert_eq!(job.segment.index, i);
    }
}

#[test]
fn segments_are_joined_in_their_order() {
    let files = strs(&["/s/part_1_delayed.flac", "/s/part_2.flac", "/s/part_3_trimmed.flac"]);
    assert_eq!(
        concat_request(&files, "/s/target_audio_final.flac"),
        strs(&[
            "-y", "-i", "/s/part_1_delayed.flac", "-i", "/s/part_2.flac", "-i", "/s/part_3_trimmed.flac",
            "-filter_complex", "[0:a][1:a][2:a]concat=n=3:v=0:a=1[a]", "-map", "[a]", "-c:a", "flac",
            "/s/target_audio_final.flac",
        ])
    );
    assert_eq!(
        concat_request(&Vec::new(), "out.flac"),
        strs(&["-y", "-filter_complex", "concat=n=0:v=0:a=1[a]", "-map", "[a]", "-c:a", "flac", "out.flac"])
    );
    let many: Vec<String> = (0..12).map(|i| format!("f{}", i)).collect();
    let args = concat_request(&many, "out");
    assert_eq!(args[26], "[0:a][1:a][2:a][3:a][4:a][5:a][6:a][7:a][8:a][9:a][10:a][11:a]concat=n=12:v=0:a=1[a]");
}

#[test]
fn joined_file_lies_in_the_scratch_directory() {
    let dir = Path::new("/tmp/scratch");
    let job = concat_audio_segments(&vec![dir.join("part_1.flac"), dir.join("part_2.flac")], dir).unwrap();
    assert_eq!(job.output, dir.join("target_audio_final.flac"));
    assert_eq!(job.args.last().unwrap(), dir.join("target_audio_final.flac").to_str().unwrap());
    assert_eq!(job.args[2], dir.join("part_1.flac").to_str().unwrap());
    assert_eq!(job.args[4], dir.join("part_2.flac").to_str().unwrap());
}

/// The start times of the segments in the order in which a joining request names their files.
fn joined_starts(args: &[String], jobs: &[split_audio::audio_processing::SegmentJob]) -> Vec<u64> {
    let mut starts = Vec::new();
    let mut i = 1;
    while args[i] == "-i" {
        let job = jobs.iter().find(|j| j.output().to_str() == Some(args[i + 1].as_str())).unwrap();
        starts.push(job.segment.start_time);
        i += 2;
    }
    starts
}

#[test]
fn shuffled_segments_are_detected() {
    let dir = Path::new("/tmp/scratch");
    let splits = vec![2_000_000u64, 5_000_000, 9_000_000];
    let jobs = split_and_delay_audio(Path::new("/tmp/a.flac"), &splits, &vec![0, 10, -10, 0], dir).unwrap();
    let boundaries = vec![0u64, 2_000_000, 5_000_000, 9_000_000];

    let outputs: Vec<PathBuf> = jobs.iter().map(|j| j.output().clone()).collect();
    let joined = concat_audio_segments(&outputs, dir).unwrap();
    assert_eq!(joined_starts(&joined.args, &jobs), boundaries);

    let mut shuffled = outputs.clone();
    shuffled.swap(1, 2);
    let faulty = concat_audio_segments(&shuffled, dir).unwrap();
    assert_ne!(joined_starts(&faulty.args, &jobs), boundaries);
    shuffled.reverse();
    let faulty = concat_audio_segments(&shuffled, dir).unwrap();
    assert_ne!(joined_starts(&faulty.args, &jobs), boundaries);
}

#[test]
fn splits_out_of_order_or_count_are_refused() {
    let dir = Path::new("/tmp/scratch");
    let flac = Path::new("/tmp/a.flac");
    assert_eq!(split_and_delay_audio(flac, &vec![5, 2], &vec![0, 0, 0], dir).err(), Some(AssemblyError::Unordered));
    assert_eq!(split_and_delay_audio(flac, &vec![1, 2, 3, 2], &vec![0; 5], dir).err(), Some(AssemblyError::Unordered));
    assert_eq!(split_and_delay_audio(flac, &vec![2, 5], &vec![0, 0], dir).err(), Some(AssemblyError::DelayCount));
    assert_eq!(split_and_delay_audio(flac, &vec![2, 5], &vec![0; 4], dir).err(), Some(AssemblyError::DelayCount));
    assert_eq!(split_and_delay_audio(flac, &Vec::new(), &Vec::new(), dir).err(), Some(AssemblyError::DelayCount));
    assert_eq!(split_and_delay_audio(flac, &vec![5, 2], &vec![0], dir).err(), Some(AssemblyError::DelayCount));
    assert_eq!(split_and_delay_audio(flac, &vec![2, 2, 5], &vec![0; 4], dir).map(|jobs| jobs.len()), Ok(4));
    assert_eq!(split_and_delay_audio(flac, &Vec::new(), &vec![7], dir).map(|jobs| jobs.len()), Ok(1));
    assert_eq!(check_order(&vec![1, 2, 2, 3], &vec![0; 5]), Ok(()));
    assert_eq!(check_order(&vec![1, 3, 2], &vec![0; 4]), Err(AssemblyError::Unordered));
    assert_eq!(check_order(&vec![1, 3, 2], &vec![0; 3]), Err(AssemblyError::DelayCount));
}
