use vstd::prelude::*;
use crate::cli::TIME_PLACES;
use crate::ffmpeg::{probe_outcome, CommandOutput, FFmpegError};
use crate::json::{json_document, parse_document};
use crate::probe::{
    entries, read_report, report_of, ProbeReport, ProbeReportModel, StreamEntry, StreamEntryModel,
};
use crate::numeral::{
    decimal_text, parse_u64, parse_unsigned_fixed, push_decimal, u64_value, unsigned_fixed_value,
};
use crate::text::{
    ends_with, from_chars, has_suffix, lines, lines_of, optional_text, pieces, push_all, push_str, spells,
    split, strings, sub_vec, texts, to_chars, trim, trimmed,
};

verus! {

/// What is known of the audio stream that is to be edited.
#[derive(Debug, Clone, PartialEq, Eq)]
pub struct AudioStreamMetadata {
    /// The place of the stream among the audio streams of the container, from 0.
    pub stream_index: usize,
    pub codec: String,
    pub title: String,
    pub language: String,
}

/// Why the stream to be edited could not be made out.
#[derive(Debug, Clone, Copy, PartialEq, Eq, Structural)]
pub enum ProbeError {
    /// The container lists no audio stream with this index; or, where a
    /// stream is asked for by its place among the audio streams, none at this place.
    StreamNotFound { stream: usize },
    /// The container lists the stream without a codec.
    CodecUndetermined { stream: usize },
}

/// The duration that a report of the engine gives, in microseconds: the
/// report without the white space around it, read as seconds. Nothing where
/// that is no number, or a negative one.
pub open spec fn reported_duration(report: Seq<char>) -> Option<u64> {
    unsigned_fixed_value(trimmed(report), TIME_PLACES as nat)
}

/// The duration that a measurement of a file yields: the one it reports,
/// where the probing tool reported success.
pub open spec fn measured_duration(measurement: CommandOutput) -> Option<u64> {
    if measurement.success {
        reported_duration(measurement.stdout@)
    } else {
        None
    }
}

/// Whether `e` is the error of a measurement that yields no duration: where
/// the probing tool reported no success, the error holds what the tool wrote
/// as its error; else it holds the report that is no duration.
pub open spec fn is_measurement_failure(measurement: CommandOutput, e: FFmpegError) -> bool {
    if !measurement.success {
        e matches FFmpegError::CommandFailed(what, why) && what@ == "get_file_duration"@ && why@
            == measurement.stderr@
    } else {
        e matches FFmpegError::DurationUnreadable(report) && report@ == trimmed(measurement.stdout@)
    }
}

/// Reads the duration of a file, in microseconds, from the answer of the
/// probing tool.
///
/// Fails where the tool reported no success, and where what it reported is no duration.
pub fn get_file_duration(measurement: &CommandOutput) -> (r: Result<u64, FFmpegError>)
    ensures
        match measured_duration(*measurement) {
            Some(duration) => r == Ok::<u64, FFmpegError>(duration),
            None => r matches Err(e) && is_measurement_failure(*measurement, e),
        },
{
    match probe_outcome("get_file_duration", measurement) {
        Ok(()) => {},
        Err(e) => {
            return Err(e);
        },
    }
    let report = trim(&to_chars(measurement.stdout.as_str()));
    match parse_unsigned_fixed(&report, TIME_PLACES) {
        Some(duration) => Ok(duration),
        None => Err(FFmpegError::DurationUnreadable(from_chars(&report))),
    }
}

/// The fields of each line of a listing that the engine writes with commas between the fields.
pub open spec fn rows_of(listing: Seq<char>) -> Seq<Seq<Seq<char>>> {
    lines_of(listing).map_values(|line: Seq<char>| pieces(line, ','))
}

/// A row of the listing of index, codec and type that is an audio stream.
pub open spec fn is_audio_entry(row: Seq<Seq<char>>) -> bool {
    row.len() >= 3 && row[2] == "audio"@
}

/// The number of audio streams among the rows.
pub open spec fn audio_entries(rows: Seq<Seq<Seq<char>>>) -> nat {
    rows.filter(|row: Seq<Seq<char>>| is_audio_entry(row)).len()
}

/// The row is the audio stream with the index `stream`.
pub open spec fn names_stream(row: Seq<Seq<char>>, stream: usize) -> bool {
    is_audio_entry(row) && u64_value(row[0]) == Some(stream as u64)
}

/// The first audio stream of the listing with the index `stream`: how many
/// audio streams stand before it, and its codec.
pub open spec fn located(rows: Seq<Seq<Seq<char>>>, stream: usize) -> Option<(nat, Seq<char>)>
    decreases rows.len(),
{
    if rows.len() == 0 {
        None
    } else {
        match located(rows.drop_last(), stream) {
            Some(found) => Some(found),
            None => if names_stream(rows.last(), stream) {
                Some((audio_entries(rows.drop_last()), rows.last()[1]))
            } else {
                None
            },
        }
    }
}

/// A stream found in the first rows of a listing is the stream found in the whole listing.
proof fn lemma_located_prefix(rows: Seq<Seq<Seq<char>>>, stream: usize, k: int)
    requires
        0 <= k <= rows.len(),
        located(rows.take(k), stream) is Some,
    ensures
        located(rows, stream) == located(rows.take(k), stream),
    decreases rows.len(),
{
    if k < rows.len() {
        assert(rows.drop_last().take(k) =~= rows.take(k));
        lemma_located_prefix(rows.drop_last(), stream, k);
    } else {
        assert(rows.take(k) =~= rows);
    }
}

/// Whether row `k` is the first row of the listing that is the audio stream with the index `stream`.
pub open spec fn is_first_named(rows: Seq<Seq<Seq<char>>>, stream: usize, k: int) -> bool {
    &&& 0 <= k < rows.len()
    &&& names_stream(rows[k], stream)
    &&& forall|j: int| 0 <= j < k ==> !names_stream(#[trigger] rows[j], stream)
}

/// The stream that is found is the first audio stream of the listing with
/// the index asked for; its place is the number of audio streams listed
/// before it, whatever their index. None is found exactly when the listing
/// has no audio stream with that index.
pub proof fn lemma_located_is_first(rows: Seq<Seq<Seq<char>>>, stream: usize)
    ensures
        match located(rows, stream) {
            Some((ordinal, codec)) => exists|k: int|
                #[trigger] is_first_named(rows, stream, k) && ordinal == audio_entries(rows.take(k))
                    && codec == rows[k][1],
            None => forall|k: int| 0 <= k < rows.len() ==> !names_stream(#[trigger] rows[k], stream),
        },
    decreases rows.len(),
{
    if rows.len() > 0 {
        let front = rows.drop_last();
        lemma_located_is_first(front, stream);
        match located(front, stream) {
            Some((ordinal, codec)) => {
                let k = choose|k: int|
                    #[trigger] is_first_named(front, stream, k) && ordinal == audio_entries(front.take(k))
                        && codec == front[k][1];
                assert(front.take(k) =~= rows.take(k));
                assert(is_first_named(rows, stream, k)) by {
                    assert(rows[k] == front[k]);
                    assert forall|j: int| 0 <= j < k implies !names_stream(#[trigger] rows[j], stream) by {
                        assert(rows[j] == front[j]);
                    }
                }
            },
            None => {
                assert forall|j: int| 0 <= j < front.len() implies !names_stream(
                    #[trigger] rows[j],
                    stream,
                ) by {
                    assert(rows[j] == front[j]);
                }
                if names_stream(rows.last(), stream) {
                    let k = rows.len() - 1;
                    assert(rows.take(k) =~= front);
                    assert(is_first_named(rows, stream, k));
                }
            },
        }
    }
}

/// The stream to be edited, as the listing of index, codec and type shows it.
pub open spec fn located_stream(listing: Seq<char>, stream: usize) -> Result<(nat, Seq<char>), ProbeError> {
    match located(rows_of(listing), stream) {
        None => Err(ProbeError::StreamNotFound { stream }),
        Some((ordinal, codec)) => if codec.len() == 0 {
            Err(ProbeError::CodecUndetermined { stream })
        } else {
            Ok((ordinal, codec))
        },
    }
}

/// An audio stream found in a listing.
#[derive(Debug, Clone, PartialEq, Eq)]
pub struct LocatedStream {
    /// The place of the stream among the audio streams of the container, from 0.
    pub ordinal: usize,
    pub codec: String,
}

/// Finds the audio stream with the index `stream` in the engine's listing of
/// `index,codec,type` lines. The listing is what the engine wrote in answer
/// to a question that `probe_outcome` found answered.
pub fn locate_audio_stream(streams_info: &str, stream: usize) -> (r: Result<LocatedStream, ProbeError>)
    ensures
        match r {
            Ok(found) => located_stream(streams_info@, stream) == Ok::<(nat, Seq<char>), ProbeError>(
                (found.ordinal as nat, found.codec@),
            ),
            Err(e) => located_stream(streams_info@, stream) == Err::<(nat, Seq<char>), ProbeError>(e),
        },
{
    let chars = to_chars(streams_info);
    let all = lines(&chars);
    let ghost rows = rows_of(streams_info@);
    let ghost is_audio = |row: Seq<Seq<char>>| is_audio_entry(row);
    let mut audio_count: usize = 0;
    let mut i: usize = 0;
    while i < all.len()
        invariant
            i <= all.len(),
            texts(all@) == lines_of(streams_info@),
            rows == rows_of(streams_info@),
            is_audio == |row: Seq<Seq<char>>| is_audio_entry(row),
            located(rows.take(i as int), stream) is None,
            audio_count == audio_entries(rows.take(i as int)),
            audio_count <= i,
        decreases all.len() - i,
    {
        let parts = split(&all[i], ',');
        proof {
            assert(texts(all@)[i as int] == all@[i as int]@);
            assert(rows[i as int] == texts(parts@));
            assert(rows.take(i + 1).drop_last() =~= rows.take(i as int));
            assert(rows.take(i + 1) =~= rows.take(i as int).push(rows[i as int]));
            rows.take(i as int).lemma_filter_push(rows[i as int], is_audio);
        }
        if parts.len() >= 3 && spells(&parts[2], "audio") {
            assert(texts(parts@)[2] == parts@[2]@);
            assert(texts(parts@)[0] == parts@[0]@);
            assert(texts(parts@)[1] == parts@[1]@);
            match parse_u64(&parts[0]) {
                Some(id) => {
                    if id == stream as u64 {
                        proof {
                            lemma_located_prefix(rows, stream, i + 1);
                        }
                        if parts[1].len() == 0 {
                            return Err(ProbeError::CodecUndetermined { stream });
                        }
                        return Ok(LocatedStream { ordinal: audio_count, codec: from_chars(&parts[1]) });
                    }
                },
                None => {},
            }
            audio_count += 1;
        } else {
            assert(!is_audio_entry(rows[i as int])) by {
                if parts.len() >= 3 {
                    assert(texts(parts@)[2] == parts@[2]@);
                }
            }
        }
        i += 1;
    }
    assert(rows.take(i as int) =~= rows);
    Err(ProbeError::StreamNotFound { stream })
}

/// Puts together what is known of the stream to be edited: its place among
/// the audio streams and its codec from the listing, its title and its
/// language from the engine's answers, without the white space around them.
/// Each of the three texts is what the engine wrote in answer to a question
/// that `probe_outcome` found answered.
pub fn probe_audio_stream(streams_info: &str, stream: usize, title_output: &str, language_output: &str) -> (r:
    Result<AudioStreamMetadata, ProbeError>)
    ensures
        match r {
            Ok(meta) => {
                &&& located_stream(streams_info@, stream) == Ok::<(nat, Seq<char>), ProbeError>(
                    (meta.stream_index as nat, meta.codec@),
                )
                &&& meta.title@ == trimmed(title_output@)
                &&& meta.language@ == trimmed(language_output@)
            },
            Err(e) => located_stream(streams_info@, stream) == Err::<(nat, Seq<char>), ProbeError>(e),
        },
{
    let found = match locate_audio_stream(streams_info, stream) {
        Ok(found) => found,
        Err(e) => {
            return Err(e);
        },
    };
    let title = from_chars(&trim(&to_chars(title_output)));
    let language = from_chars(&trim(&to_chars(language_output)));
    Ok(AudioStreamMetadata { stream_index: found.ordinal, codec: found.codec, title, language })
}

/// A row of the listing of index and type that is an audio stream.
pub open spec fn is_audio_slot(row: Seq<Seq<char>>) -> bool {
    row.len() == 2 && row[1] == "audio"@
}

/// The number of audio streams among the rows of a listing of index and type.
pub open spec fn audio_slots(rows: Seq<Seq<Seq<char>>>) -> nat {
    rows.filter(|row: Seq<Seq<char>>| is_audio_slot(row)).len()
}

/// Where the output takes the stream of row `k` from: from the new track
/// where the row is the audio stream to be replaced, else from the original
/// container, by the stream's own index.
pub open spec fn slot_source(rows: Seq<Seq<Seq<char>>>, replaced: usize, k: int) -> Seq<char> {
    if is_audio_slot(rows[k]) && audio_slots(rows.take(k)) == replaced {
        "1:0"@
    } else {
        "0:"@ + rows[k][0]
    }
}

/// The stream map of the output: for each row of two fields, in the order of
/// the listing, the source of that stream. Other rows are passed over.
pub open spec fn map_args(rows: Seq<Seq<Seq<char>>>, replaced: usize) -> Seq<Seq<char>>
    decreases rows.len(),
{
    if rows.len() == 0 {
        Seq::empty()
    } else {
        let k = rows.len() - 1;
        map_args(rows.drop_last(), replaced) + if rows[k].len() == 2 {
            seq!["-map"@, slot_source(rows, replaced, k)]
        } else {
            Seq::empty()
        }
    }
}

/// The source of a slot depends on the rows up to it alone.
proof fn lemma_slot_source_prefix(rows: Seq<Seq<Seq<char>>>, replaced: usize, k: int, n: int)
    requires
        0 <= k < n <= rows.len(),
    ensures
        slot_source(rows.take(n), replaced, k) == slot_source(rows, replaced, k),
{
    assert(rows.take(n).take(k) =~= rows.take(k));
}

/// The output keeps the order of the streams, and only the audio stream to be
/// replaced comes from the new track: where every row of the listing has its
/// two fields, the map has one entry for each stream, in the order of the
/// listing; the entry of a stream names the new track exactly when the stream
/// is the audio stream with the place `replaced` among the audio streams, and
/// else names the stream itself in the original container.
pub proof fn lemma_map_keeps_slots(rows: Seq<Seq<Seq<char>>>, replaced: usize, k: int)
    requires
        forall|i: int| 0 <= i < rows.len() ==> (#[trigger] rows[i]).len() == 2,
        0 <= k < rows.len(),
    ensures
        map_args(rows, replaced).len() == 2 * rows.len(),
        map_args(rows, replaced)[2 * k] == "-map"@,
        map_args(rows, replaced)[2 * k + 1] == slot_source(rows, replaced, k),
    decreases rows.len(),
{
    let front = rows.drop_last();
    lemma_map_len(front, replaced);
    if k < rows.len() - 1 {
        lemma_map_keeps_slots(front, replaced, k);
        lemma_slot_source_prefix(rows, replaced, k, rows.len() - 1);
    }
}

/// The map has two arguments for each row of two fields.
proof fn lemma_map_len(rows: Seq<Seq<Seq<char>>>, replaced: usize)
    requires
        forall|i: int| 0 <= i < rows.len() ==> (#[trigger] rows[i]).len() == 2,
    ensures
        map_args(rows, replaced).len() == 2 * rows.len(),
    decreases rows.len(),
{
    if rows.len() > 0 {
        lemma_map_len(rows.drop_last(), replaced);
    }
}

/// The number of audio streams in a longer part of the listing is not smaller.
proof fn lemma_audio_slots_grow(rows: Seq<Seq<Seq<char>>>, j: int, k: int)
    requires
        0 <= j <= k <= rows.len(),
    ensures
        audio_slots(rows.take(j)) <= audio_slots(rows.take(k)),
        j < k && is_audio_slot(rows[j]) ==> audio_slots(rows.take(j)) < audio_slots(rows.take(k)),
    decreases k - j,
{
    let is_audio = |row: Seq<Seq<char>>| is_audio_slot(row);
    if j < k {
        lemma_audio_slots_grow(rows, j + 1, k);
        assert(rows.take(j + 1) =~= rows.take(j).push(rows[j]));
        rows.take(j).lemma_filter_push(rows[j], is_audio);
    }
}

/// The new track stands in one slot at most.
pub proof fn lemma_one_slot_replaced(rows: Seq<Seq<Seq<char>>>, replaced: usize, j: int, k: int)
    requires
        0 <= j < rows.len(),
        0 <= k < rows.len(),
        is_audio_slot(rows[j]) && audio_slots(rows.take(j)) == replaced,
        is_audio_slot(rows[k]) && audio_slots(rows.take(k)) == replaced,
    ensures
        j == k,
{
    if j < k {
        lemma_audio_slots_grow(rows, j, k);
    } else if k < j {
        lemma_audio_slots_grow(rows, k, j);
    }
}

/// Where the listing has an audio stream at the place asked for, one row of
/// it is that stream; the map names the new track for it.
pub proof fn lemma_replaced_slot_exists(rows: Seq<Seq<Seq<char>>>, replaced: usize)
    requires
        replaced < audio_slots(rows),
    ensures
        exists|k: int|
            0 <= k < rows.len() && is_audio_slot(#[trigger] rows[k]) && audio_slots(rows.take(k))
                == replaced,
    decreases rows.len(),
{
    let is_audio = |row: Seq<Seq<char>>| is_audio_slot(row);
    if rows.len() == 0 {
        assert(rows.filter(is_audio).len() <= rows.len()) by {
            rows.lemma_filter_len(is_audio);
        }
    } else {
        let front = rows.drop_last();
        assert(rows =~= front.push(rows.last()));
        front.lemma_filter_push(rows.last(), is_audio);
        if replaced < audio_slots(front) {
            lemma_replaced_slot_exists(front, replaced);
            let k = choose|k: int|
                0 <= k < front.len() && is_audio_slot(#[trigger] front[k]) && audio_slots(front.take(k))
                    == replaced;
            assert(rows[k] == front[k]);
            assert(rows.take(k) =~= front.take(k));
        } else {
            let k = rows.len() - 1;
            assert(rows.take(k) =~= front);
            assert(is_audio_slot(rows[k]));
        }
    }
}

/// The stream map of the output, where the listing has an audio stream at the
/// place `replaced`; else the error that no such stream is there.
pub open spec fn stream_map(listing: Seq<char>, replaced: usize) -> Result<Seq<Seq<char>>, ProbeError> {
    if replaced >= audio_slots(rows_of(listing)) {
        Err(ProbeError::StreamNotFound { stream: replaced })
    } else {
        Ok(map_args(rows_of(listing), replaced))
    }
}

/// Builds the stream map of the output from the engine's listing of
/// `index,type` lines: every stream is taken from the original container but
/// the audio stream with the place `replaced_audio_stream_idx` among the audio
/// streams, which is taken from the new track. The listing is what the engine
/// wrote in answer to a question that `probe_outcome` found answered.
///
/// Fails where the listing has no audio stream at that place: no map is
/// built that leaves the new track out.
pub fn build_stream_map_args(streams_info: &str, replaced_audio_stream_idx: usize) -> (r: Result<
    Vec<String>,
    ProbeError,
>)
    ensures
        match r {
            Ok(args) => stream_map(streams_info@, replaced_audio_stream_idx) == Ok::<
                Seq<Seq<char>>,
                ProbeError,
            >(strings(args@)),
            Err(e) => stream_map(streams_info@, replaced_audio_stream_idx) == Err::<
                Seq<Seq<char>>,
                ProbeError,
            >(e),
        },
{
    let chars = to_chars(streams_info);
    let all = lines(&chars);
    let ghost rows = rows_of(streams_info@);
    let ghost is_audio = |row: Seq<Seq<char>>| is_audio_slot(row);
    let mut args: Vec<String> = Vec::new();
    let mut audio_count: usize = 0;
    let mut i: usize = 0;
    assert(strings(args@) =~= map_args(rows.take(0), replaced_audio_stream_idx));
    while i < all.len()
        invariant
            i <= all.len(),
            texts(all@) == lines_of(streams_info@),
            rows == rows_of(streams_info@),
            is_audio == |row: Seq<Seq<char>>| is_audio_slot(row),
            strings(args@) == map_args(rows.take(i as int), replaced_audio_stream_idx),
            audio_count == audio_slots(rows.take(i as int)),
            audio_count <= i,
        decreases all.len() - i,
    {
        let parts = split(&all[i], ',');
        proof {
            assert(texts(all@)[i as int] == all@[i as int]@);
            assert(rows[i as int] == texts(parts@));
            assert(rows.take(i + 1).drop_last() =~= rows.take(i as int));
            assert(rows.take(i + 1) =~= rows.take(i as int).push(rows[i as int]));
            rows.take(i as int).lemma_filter_push(rows[i as int], is_audio);
            assert(rows.take(i + 1).take(i as int) =~= rows.take(i as int));
        }
        if parts.len() == 2 {
            assert(texts(parts@)[0] == parts@[0]@);
            assert(texts(parts@)[1] == parts@[1]@);
            let ghost before = strings(args@);
            let audio = spells(&parts[1], "audio");
            args.push("-map".to_owned());
            if audio && audio_count == replaced_audio_stream_idx {
                args.push("1:0".to_owned());
            } else {
                let mut source: Vec<char> = Vec::new();
                push_str(&mut source, "0:");
                push_all(&mut source, &parts[0]);
                args.push(from_chars(&source));
            }
            assert(strings(args@) =~= before + seq![
                "-map"@,
                slot_source(rows.take(i + 1), replaced_audio_stream_idx, i as int),
            ]);
            if audio {
                audio_count += 1;
            }
        } else {
            assert(strings(args@) + Seq::<Seq<char>>::empty() =~= strings(args@));
        }
        i += 1;
    }
    assert(rows.take(i as int) =~= rows);
    if replaced_audio_stream_idx >= audio_count {
        return Err(ProbeError::StreamNotFound { stream: replaced_audio_stream_idx });
    }
    Ok(args)
}

/// One audio stream of a container, as it is shown to the user.
#[derive(Debug, Clone, PartialEq, Eq)]
pub struct AudioStream {
    pub index: usize,
    pub codec: String,
    pub channels: String,
    pub sample_rate: String,
    pub bitrate: String,
    pub language: String,
    pub title: String,
}

/// An audio stream as plain text.
pub struct AudioStreamModel {
    pub index: usize,
    pub codec: Seq<char>,
    pub channels: Seq<char>,
    pub sample_rate: Seq<char>,
    pub bitrate: Seq<char>,
    pub language: Seq<char>,
    pub title: Seq<char>,
}

impl View for AudioStream {
    type V = AudioStreamModel;

    open spec fn view(&self) -> AudioStreamModel {
        AudioStreamModel {
            index: self.index,
            codec: self.codec@,
            channels: self.channels@,
            sample_rate: self.sample_rate@,
            bitrate: self.bitrate@,
            language: self.language@,
            title: self.title@,
        }
    }
}

/// The streams as plain text.
pub open spec fn stream_models(streams: Seq<AudioStream>) -> Seq<AudioStreamModel> {
    Seq::new(streams.len(), |i: int| streams[i]@)
}

/// The bit rate that a text gives: a whole number above zero.
pub open spec fn positive_rate(text: Option<Seq<char>>) -> Option<u64> {
    match text {
        Some(t) => match u64_value(t) {
            Some(n) => if n > 0 {
                Some(n)
            } else {
                None
            },
            None => None,
        },
        None => None,
    }
}

/// The bit rate that the tags of a stream give: that of the first of `BPS`,
/// `BPS-eng` and `ENCODER_OPTIONS` that holds a whole number above zero.
pub open spec fn tagged_rate(stream: StreamEntryModel) -> Option<u64> {
    match positive_rate(stream.tags.bps) {
        Some(n) => Some(n),
        None => match positive_rate(stream.tags.bps_eng) {
            Some(n) => Some(n),
            None => positive_rate(stream.tags.encoder_options),
        },
    }
}

/// Kilobits per second of `size` bytes played in `duration` microseconds,
/// rounded down, and no more than a `u64` holds.
pub open spec fn estimated_kbps(size: u64, duration: u64) -> u64 {
    let kbps = size * 8000 / (duration as int);
    if kbps > u64::MAX {
        u64::MAX
    } else {
        kbps as u64
    }
}

/// The bit rate estimated from the size of the stream and the duration of the
/// file, where both are known and above zero.
pub open spec fn estimated_rate(stream: StreamEntryModel, file_duration: Option<u64>) -> Option<u64> {
    match (file_duration, stream.tags.number_of_bytes) {
        (Some(duration), Some(text)) => match u64_value(text) {
            Some(size) => if duration > 0 && size > 0 {
                Some(estimated_kbps(size, duration))
            } else {
                None
            },
            None => None,
        },
        _ => None,
    }
}

/// The bit rate that is usual for a codec.
pub open spec fn typical_rate(codec: Option<Seq<char>>) -> Seq<char> {
    match codec {
        Some(name) => if name == "aac"@ {
            "~128 kbps"@
        } else if name == "mp3"@ {
            "~192 kbps"@
        } else if name == "flac"@ {
            "~1000 kbps"@
        } else if name == "ac3"@ {
            "~640 kbps"@
        } else if name == "dts"@ {
            "~1536 kbps"@
        } else if name == "eac3"@ {
            "~768 kbps"@
        } else {
            "unknown"@
        },
        None => "unknown"@,
    }
}

/// The bit rate of a stream as it is shown. The first of these that gives a
/// whole number above zero decides: the stream's own bit rate, the tags, the
/// estimate from size and duration; after them what is usual for the codec.
pub open spec fn bitrate_label(stream: StreamEntryModel, file_duration: Option<u64>) -> Seq<char> {
    match positive_rate(stream.bit_rate) {
        Some(n) => decimal_text((n / 1000) as nat) + " kbps"@,
        None => match tagged_rate(stream) {
            Some(n) => decimal_text((n / 1000) as nat) + " kbps"@,
            None => match estimated_rate(stream, file_duration) {
                Some(kbps) => "~"@ + decimal_text(kbps as nat) + " kbps"@,
                None => typical_rate(stream.codec_name),
            },
        },
    }
}

/// Reads a bit rate above zero.
fn rate_in(text: &Option<String>) -> (r: Option<u64>)
    ensures
        r == positive_rate(optional_text(*text)),
{
    match text {
        Some(t) => match parse_u64(&to_chars(t.as_str())) {
            Some(n) => if n > 0 {
                Some(n)
            } else {
                None
            },
            None => None,
        },
        None => None,
    }
}

/// Reads the bit rate from the tags.
fn rate_in_tags(stream: &StreamEntry) -> (r: Option<u64>)
    ensures
        r == tagged_rate(stream@),
{
    match rate_in(&stream.tags.bps) {
        Some(n) => Some(n),
        None => match rate_in(&stream.tags.bps_eng) {
            Some(n) => Some(n),
            None => rate_in(&stream.tags.encoder_options),
        },
    }
}

/// Estimates the bit rate from size and duration.
fn rate_by_size(stream: &StreamEntry, file_duration: Option<u64>) -> (r: Option<u64>)
    ensures
        r == estimated_rate(stream@, file_duration),
{
    match (file_duration, &stream.tags.number_of_bytes) {
        (Some(duration), Some(text)) => match parse_u64(&to_chars(text.as_str())) {
            Some(size) => if duration > 0 && size > 0 {
                let kbps: u128 = (size as u128) * 8000 / (duration as u128);
                if kbps > u64::MAX as u128 {
                    Some(u64::MAX)
                } else {
                    Some(kbps as u64)
                }
            } else {
                None
            },
            None => None,
        },
        _ => None,
    }
}

/// The bit rate that is usual for the codec.
fn rate_by_codec(codec: &Option<String>) -> (r: String)
    ensures
        r@ == typical_rate(optional_text(*codec)),
{
    match codec {
        Some(name) => {
            let name = to_chars(name.as_str());
            if spells(&name, "aac") {
                "~128 kbps".to_owned()
            } else if spells(&name, "mp3") {
                "~192 kbps".to_owned()
            } else if spells(&name, "flac") {
                "~1000 kbps".to_owned()
            } else if spells(&name, "ac3") {
                "~640 kbps".to_owned()
            } else if spells(&name, "dts") {
                "~1536 kbps".to_owned()
            } else if spells(&name, "eac3") {
                "~768 kbps".to_owned()
            } else {
                "unknown".to_owned()
            }
        },
        None => "unknown".to_owned(),
    }
}

/// Makes out the bit rate of a stream, as it is shown to the user.
pub fn get_stream_bitrate(stream: &StreamEntry, file_duration: Option<u64>) -> (r: String)
    ensures
        r@ == bitrate_label(stream@, file_duration),
{
    let exact = match rate_in(&stream.bit_rate) {
        Some(n) => Some(n),
        None => rate_in_tags(stream),
    };
    match exact {
        Some(n) => {
            let mut label: Vec<char> = Vec::new();
            push_decimal(&mut label, n / 1000);
            push_str(&mut label, " kbps");
            from_chars(&label)
        },
        None => match rate_by_size(stream, file_duration) {
            Some(kbps) => {
                let mut label: Vec<char> = Vec::new();
                push_str(&mut label, "~");
                push_decimal(&mut label, kbps);
                push_str(&mut label, " kbps");
                from_chars(&label)
            },
            None => rate_by_codec(&stream.codec_name),
        },
    }
}

/// The text, or `fallback` where there is none.
pub open spec fn text_or(text: Option<Seq<char>>, fallback: Seq<char>) -> Seq<char> {
    match text {
        Some(t) => t,
        None => fallback,
    }
}

/// The duration that a text gives, in microseconds, where it is a number that is not negative.
pub open spec fn duration_in(text: Option<Seq<char>>) -> Option<u64> {
    match text {
        Some(t) => unsigned_fixed_value(t, TIME_PLACES as nat),
        None => None,
    }
}

/// One stream of the report as it is shown to the user.
pub open spec fn shown_stream(stream: StreamEntryModel, file_duration: Option<u64>) -> AudioStreamModel {
    AudioStreamModel {
        index: (match stream.index {
            Some(n) => n,
            None => 0,
        }) as usize,
        codec: text_or(stream.codec_name, "unknown"@),
        channels: match stream.channels {
            Some(n) => decimal_text(n as nat),
            None => text_or(stream.channel_layout, "unknown"@),
        },
        sample_rate: match stream.sample_rate {
            Some(rate) => rate + " Hz"@,
            None => "unknown"@,
        },
        bitrate: bitrate_label(stream, file_duration),
        language: text_or(stream.tags.language, "unknown"@),
        title: text_or(stream.tags.title, "-"@),
    }
}

/// The streams of the report as they are shown to the user, in the order of the report.
pub open spec fn shown_streams(report: ProbeReportModel) -> Seq<AudioStreamModel> {
    report.streams.map_values(
        |stream: StreamEntryModel| shown_stream(stream, duration_in(report.format_duration)),
    )
}

/// A copy of the text, or of `fallback` where there is none.
fn text_or_else(text: &Option<String>, fallback: &str) -> (r: String)
    ensures
        r@ == text_or(optional_text(*text), fallback@),
{
    match text {
        Some(t) => t.clone(),
        None => fallback.to_owned(),
    }
}

/// Reads a duration in seconds as microseconds.
fn read_duration(text: &Option<String>) -> (r: Option<u64>)
    ensures
        r == duration_in(optional_text(*text)),
{
    match text {
        Some(t) => parse_unsigned_fixed(&to_chars(t.as_str()), TIME_PLACES),
        None => None,
    }
}

/// Describes one stream of the report for the user.
pub fn describe_stream(stream: &StreamEntry, file_duration: Option<u64>) -> (r: AudioStream)
    ensures
        r@ == shown_stream(stream@, file_duration),
{
    let index = match stream.index {
        Some(n) => n,
        None => 0,
    } as usize;
    let channels = match stream.channels {
        Some(n) => {
            let mut text: Vec<char> = Vec::new();
            push_decimal(&mut text, n);
            from_chars(&text)
        },
        None => text_or_else(&stream.channel_layout, "unknown"),
    };
    let sample_rate = match &stream.sample_rate {
        Some(rate) => {
            let mut text: Vec<char> = Vec::new();
            push_str(&mut text, rate.as_str());
            push_str(&mut text, " Hz");
            from_chars(&text)
        },
        None => "unknown".to_owned(),
    };
    AudioStream {
        index,
        codec: text_or_else(&stream.codec_name, "unknown"),
        channels,
        sample_rate,
        bitrate: get_stream_bitrate(stream, file_duration),
        language: text_or_else(&stream.tags.language, "unknown"),
        title: text_or_else(&stream.tags.title, "-"),
    }
}

/// Describes the streams of the report for the user.
pub fn describe_streams(report: &ProbeReport) -> (r: Vec<AudioStream>)
    ensures
        stream_models(r@) == shown_streams(report@),
{
    let file_duration = read_duration(&report.format_duration);
    let ghost wanted = shown_streams(report@);
    let mut out: Vec<AudioStream> = Vec::new();
    let mut i: usize = 0;
    while i < report.streams.len()
        invariant
            i <= report.streams.len(),
            file_duration == duration_in(report@.format_duration),
            wanted == shown_streams(report@),
            stream_models(out@) == wanted.take(i as int),
        decreases report.streams.len() - i,
    {
        let shown = describe_stream(&report.streams[i], file_duration);
        let ghost before = stream_models(out@);
        out.push(shown);
        assert(stream_models(out@) =~= before.push(shown@));
        assert(wanted.take(i + 1) =~= wanted.take(i as int).push(wanted[i as int]));
        i += 1;
    }
    assert(wanted.take(i as int) =~= wanted);
    out
}

/// Reads the audio streams of a container from the engine's report on it.
///
/// Fails where the engine reported no success, with what it wrote as its
/// error; and where its report is no JSON text.
pub fn inspect_audio_streams(output: &CommandOutput) -> (r: Result<Vec<AudioStream>, FFmpegError>)
    ensures
        !output.success ==> (r matches Err(FFmpegError::CommandFailed(what, why)) && what@
            == "inspect_audio_streams"@ && why@ == output.stderr@),
        output.success ==> match json_document(output.stdout@) {
            Some(document) => r matches Ok(streams) && stream_models(streams@) == shown_streams(
                report_of(document),
            ),
            None => r matches Err(FFmpegError::SerdeJson(_)),
        },
{
    match probe_outcome("inspect_audio_streams", output) {
        Ok(()) => {},
        Err(e) => {
            return Err(e);
        },
    }
    let parsed = match parse_document(output.stdout.as_str()) {
        Ok(v) => v,
        Err(e) => {
            return Err(FFmpegError::SerdeJson(e));
        },
    };
    let report = read_report(&parsed);
    Ok(describe_streams(&report))
}

/// The bit rate shown for the first of the streams with the index `stream_index`.
pub open spec fn label_of(streams: Seq<AudioStreamModel>, stream_index: usize) -> Option<Seq<char>>
    decreases streams.len(),
{
    if streams.len() == 0 {
        None
    } else {
        match label_of(streams.drop_last(), stream_index) {
            Some(label) => Some(label),
            None => if streams.last().index == stream_index {
                Some(streams.last().bitrate)
            } else {
                None
            },
        }
    }
}

/// A label found among the first streams is the label found among all.
proof fn lemma_label_prefix(streams: Seq<AudioStreamModel>, stream_index: usize, k: int)
    requires
        0 <= k <= streams.len(),
        label_of(streams.take(k), stream_index) is Some,
    ensures
        label_of(streams, stream_index) == label_of(streams.take(k), stream_index),
    decreases streams.len(),
{
    if k < streams.len() {
        assert(streams.drop_last().take(k) =~= streams.take(k));
        lemma_label_prefix(streams.drop_last(), stream_index, k);
    } else {
        assert(streams.take(k) =~= streams);
    }
}

/// The number that a shown bit rate gives in kilobits per second: what stands
/// before the ending ` kbps`, without the `~` that marks an estimate at the
/// start of the label.
pub open spec fn shown_kbps(label: Seq<char>) -> Seq<char> {
    if label[0] == '~' {
        label.subrange(1, label.len() - 5)
    } else {
        label.take(label.len() - 5)
    }
}

/// The bit rate to ask of the engine for a bit rate as it is shown. A label
/// that ends in ` kbps` gives its number followed by `k`. Any other label but
/// `unknown` is taken as it is.
pub open spec fn engine_bitrate(label: Seq<char>) -> Option<Seq<char>> {
    if has_suffix(label, " kbps"@) {
        Some(shown_kbps(label) + "k"@)
    } else if label != "unknown"@ {
        Some(label)
    } else {
        None
    }
}

/// The bit rate to encode the stream with the index `stream_index` with.
pub open spec fn processing_bitrate(streams: Seq<AudioStreamModel>, stream_index: usize) -> Option<Seq<char>> {
    match label_of(streams, stream_index) {
        Some(label) => engine_bitrate(label),
        None => None,
    }
}

/// Turns a bit rate as it is shown into one that the engine takes.
pub fn bitrate_for_engine(label: &str) -> (r: Option<String>)
    ensures
        optional_text(r) == engine_bitrate(label@),
{
    let chars = to_chars(label);
    let suffix = to_chars(" kbps");
    proof {
        reveal_strlit(" kbps");
    }
    if ends_with(&chars, &suffix) {
        assert(label@.skip(label@.len() - 5)[0] == ' ');
        let start: usize = if chars[0] == '~' {
            1
        } else {
            0
        };
        let mut out = sub_vec(&chars, start, chars.len() - 5);
        assert(label@.subrange(0, label@.len() - 5) =~= label@.take(label@.len() - 5));
        push_str(&mut out, "k");
        Some(from_chars(&out))
    } else if !spells(&chars, "unknown") {
        Some(from_chars(&chars))
    } else {
        None
    }
}

/// Finds the bit rate to encode the stream with the index `stream_index`
/// with, among the streams as they are shown.
///
/// Fails where no stream has that index, or the bit rate of the first that
/// has it is unknown.
pub fn get_stream_bitrate_for_processing(streams: &Vec<AudioStream>, stream_index: usize) -> (r: Result<
    String,
    FFmpegError,
>)
    ensures
        match processing_bitrate(stream_models(streams@), stream_index) {
            Some(bitrate) => r matches Ok(found) && found@ == bitrate,
            None => r matches Err(FFmpegError::BitrateUndetermined { stream_index: i }) && i
                == stream_index,
        },
{
    let ghost models = stream_models(streams@);
    let mut i: usize = 0;
    while i < streams.len()
        invariant
            i <= streams.len(),
            models == stream_models(streams@),
            label_of(models.take(i as int), stream_index) is None,
        decreases streams.len() - i,
    {
        assert(models.take(i + 1).drop_last() =~= models.take(i as int));
        if streams[i].index == stream_index {
            proof {
                lemma_label_prefix(models, stream_index, i + 1);
            }
            return match bitrate_for_engine(streams[i].bitrate.as_str()) {
                Some(bitrate) => Ok(bitrate),
                None => Err(FFmpegError::BitrateUndetermined { stream_index }),
            };
        }
        i += 1;
    }
    assert(models.take(i as int) =~= models);
    Err(FFmpegError::BitrateUndetermined { stream_index })
}

/// The duration of the first of the streams with the index `stream_index` whose duration can be read.
pub open spec fn listed_duration(streams: Seq<StreamEntryModel>, stream_index: usize) -> Option<u64>
    decreases streams.len(),
{
    if streams.len() == 0 {
        None
    } else {
        match listed_duration(streams.drop_last(), stream_index) {
            Some(d) => Some(d),
            None => if streams.last().index == Some(stream_index as u64) {
                duration_in(streams.last().duration)
            } else {
                None
            },
        }
    }
}

/// A duration found among the first streams is the duration found among all.
proof fn lemma_listed_duration_prefix(streams: Seq<StreamEntryModel>, stream_index: usize, k: int)
    requires
        0 <= k <= streams.len(),
        listed_duration(streams.take(k), stream_index) is Some,
    ensures
        listed_duration(streams, stream_index) == listed_duration(streams.take(k), stream_index),
    decreases streams.len(),
{
    if k < streams.len() {
        assert(streams.drop_last().take(k) =~= streams.take(k));
        lemma_listed_duration_prefix(streams.drop_last(), stream_index, k);
    } else {
        assert(streams.take(k) =~= streams);
    }
}

/// How long the stream with the index `stream_index` lasts, in microseconds:
/// its own duration where the report gives one that can be read, else that
/// of the whole container.
pub open spec fn stream_duration(report: ProbeReportModel, stream_index: usize) -> Option<u64> {
    match listed_duration(report.streams, stream_index) {
        Some(d) => Some(d),
        None => duration_in(report.format_duration),
    }
}

/// Makes out from the report how long the stream with the index `stream_index` lasts.
pub fn duration_of_stream(report: &ProbeReport, stream_index: usize) -> (r: Option<u64>)
    ensures
        r == stream_duration(report@, stream_index),
{
    let ghost models = report@.streams;
    let mut i: usize = 0;
    while i < report.streams.len()
        invariant
            i <= report.streams.len(),
            models == report@.streams,
            listed_duration(models.take(i as int), stream_index) is None,
        decreases report.streams.len() - i,
    {
        assert(models.take(i + 1).drop_last() =~= models.take(i as int));
        assert(models[i as int] == report.streams@[i as int]@);
        let stream = &report.streams[i];
        if stream.index == Some(stream_index as u64) {
            match read_duration(&stream.duration) {
                Some(d) => {
                    proof {
                        lemma_listed_duration_prefix(models, stream_index, i + 1);
                    }
                    return Some(d);
                },
                None => {},
            }
        }
        i += 1;
    }
    assert(models.take(i as int) =~= models);
    read_duration(&report.format_duration)
}

/// Reads from the engine's report how long the stream with the index
/// `stream_index` lasts, in microseconds.
///
/// Fails where the engine reported no success, with what it wrote as its
/// error; and where its report is no JSON text.
pub fn get_audio_stream_duration(output: &CommandOutput, stream_index: usize) -> (r: Result<
    Option<u64>,
    FFmpegError,
>)
    ensures
        !output.success ==> (r matches Err(FFmpegError::CommandFailed(what, why)) && what@
            == "get_audio_stream_duration"@ && why@ == output.stderr@),
        output.success ==> match json_document(output.stdout@) {
            Some(document) => r matches Ok(duration) && duration == stream_duration(
                report_of(document),
                stream_index,
            ),
            None => r matches Err(FFmpegError::SerdeJson(_)),
        },
{
    match probe_outcome("get_audio_stream_duration", output) {
        Ok(()) => {},
        Err(e) => {
            return Err(e);
        },
    }
    let parsed = match parse_document(output.stdout.as_str()) {
        Ok(v) => v,
        Err(e) => {
            return Err(FFmpegError::SerdeJson(e));
        },
    };
    let report = read_report(&parsed);
    Ok(duration_of_stream(&report, stream_index))
}

/// The question to the engine's probing tool for its report on the audio
/// streams of `input` and on the container.
pub open spec fn report_query(input: Seq<char>) -> Seq<Seq<char>> {
    seq![
        "-v"@,
        "quiet"@,
        "-print_format"@,
        "json"@,
        "-show_streams"@,
        "-show_format"@,
        "-select_streams"@,
        "a"@,
        input,
    ]
}

/// The question for the listing of every stream of `input`, one line for
/// each, with the fields that `entries` names.
pub open spec fn listing_query(input: Seq<char>, entries: Seq<char>) -> Seq<Seq<char>> {
    seq!["-v"@, "error"@, "-show_entries"@, entries, "-of"@, "csv=p=0"@, input]
}

/// The question for one tag of the audio stream at the place `ordinal` among the audio streams of `input`.
pub open spec fn tag_query(input: Seq<char>, ordinal: usize, tag: Seq<char>) -> Seq<Seq<char>> {
    seq![
        "-v"@,
        "error"@,
        "-select_streams"@,
        "a:"@ + decimal_text(ordinal as nat),
        "-show_entries"@,
        "stream_tags="@ + tag,
        "-of"@,
        "default=noprint_wrappers=1:nokey=1"@,
        input,
    ]
}

/// The question for the durations of the streams of `input` and of the container.
pub open spec fn durations_query(input: Seq<char>) -> Seq<Seq<char>> {
    seq![
        "-v"@,
        "error"@,
        "-show_entries"@,
        "stream=index,duration,codec_type"@,
        "-show_entries"@,
        "format=duration"@,
        "-of"@,
        "json"@,
        input,
    ]
}

/// The question for the duration of the file at `path`.
pub open spec fn file_duration_query(path: Seq<char>) -> Seq<Seq<char>> {
    seq![
        "-v"@,
        "error"@,
        "-show_entries"@,
        "format=duration"@,
        "-of"@,
        "default=noprint_wrappers=1:nokey=1"@,
        path,
    ]
}

/// The fields of the listing that `locate_audio_stream` reads.
pub const CODEC_LISTING: &'static str = "stream=index,codec_type,codec_name";

/// The fields of the listing that `build_stream_map_args` reads.
pub const TYPE_LISTING: &'static str = "stream=index,codec_type";

/// Builds the question whose answer `inspect_audio_streams` reads.
pub fn report_request(input: &str) -> (r: Vec<String>)
    ensures
        strings(r@) == report_query(input@),
{
    let mut args: Vec<String> = Vec::new();
    args.push("-v".to_owned());
    args.push("quiet".to_owned());
    args.push("-print_format".to_owned());
    args.push("json".to_owned());
    args.push("-show_streams".to_owned());
    args.push("-show_format".to_owned());
    args.push("-select_streams".to_owned());
    args.push("a".to_owned());
    args.push(input.to_owned());
    assert(strings(args@) =~= report_query(input@));
    args
}

/// Builds the question for a listing of the streams of `input` with the fields that `entries` names.
pub fn listing_request(input: &str, entries: &str) -> (r: Vec<String>)
    ensures
        strings(r@) == listing_query(input@, entries@),
{
    let mut args: Vec<String> = Vec::new();
    args.push("-v".to_owned());
    args.push("error".to_owned());
    args.push("-show_entries".to_owned());
    args.push(entries.to_owned());
    args.push("-of".to_owned());
    args.push("csv=p=0".to_owned());
    args.push(input.to_owned());
    assert(strings(args@) =~= listing_query(input@, entries@));
    args
}

/// Builds the question for the tag `tag` of an audio stream of `input`.
pub fn tag_request(input: &str, ordinal: usize, tag: &str) -> (r: Vec<String>)
    ensures
        strings(r@) == tag_query(input@, ordinal, tag@),
{
    let mut selector: Vec<char> = Vec::new();
    push_str(&mut selector, "a:");
    push_decimal(&mut selector, ordinal as u64);
    let mut entries: Vec<char> = Vec::new();
    push_str(&mut entries, "stream_tags=");
    push_str(&mut entries, tag);
    let mut args: Vec<String> = Vec::new();
    args.push("-v".to_owned());
    args.push("error".to_owned());
    args.push("-select_streams".to_owned());
    args.push(from_chars(&selector));
    args.push("-show_entries".to_owned());
    args.push(from_chars(&entries));
    args.push("-of".to_owned());
    args.push("default=noprint_wrappers=1:nokey=1".to_owned());
    args.push(input.to_owned());
    assert(strings(args@) =~= tag_query(input@, ordinal, tag@));
    args
}

/// Builds the question whose answer `get_audio_stream_duration` reads.
pub fn durations_request(input: &str) -> (r: Vec<String>)
    ensures
        strings(r@) == durations_query(input@),
{
    let mut args: Vec<String> = Vec::new();
    args.push("-v".to_owned());
    args.push("error".to_owned());
    args.push("-show_entries".to_owned());
    args.push("stream=index,duration,codec_type".to_owned());
    args.push("-show_entries".to_owned());
    args.push("format=duration".to_owned());
    args.push("-of".to_owned());
    args.push("json".to_owned());
    args.push(input.to_owned());
    assert(strings(args@) =~= durations_query(input@));
    args
}

/// Builds the question whose answer `get_file_duration` reads.
pub fn file_duration_request(path: &str) -> (r: Vec<String>)
    ensures
        strings(r@) == file_duration_query(path@),
{
    let mut args: Vec<String> = Vec::new();
    args.push("-v".to_owned());
    args.push("error".to_owned());
    args.push("-show_entries".to_owned());
    args.push("format=duration".to_owned());
    args.push("-of".to_owned());
    args.push("default=noprint_wrappers=1:nokey=1".to_owned());
    args.push(path.to_owned());
    assert(strings(args@) =~= file_duration_query(path@));
    args
}

} // verus!
