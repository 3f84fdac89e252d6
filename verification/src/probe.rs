use vstd::prelude::*;
use serde_json::Value;
use crate::json::{
    as_items, as_number, as_text, items_in, json_tree, member, member_of, number_in, text_in, trees, JsonTree,
};
use crate::text::optional_text;

verus! {

/// The tags of a stream that the engine reports, as far as they are read here.
#[derive(Debug, Clone, PartialEq, Eq, Default)]
pub struct StreamTags {
    pub language: Option<String>,
    pub title: Option<String>,
    /// The tag `BPS`.
    pub bps: Option<String>,
    /// The tag `BPS-eng`.
    pub bps_eng: Option<String>,
    /// The tag `ENCODER_OPTIONS`.
    pub encoder_options: Option<String>,
    /// The tag `NUMBER_OF_BYTES`.
    pub number_of_bytes: Option<String>,
}

/// One stream of the engine's report, as far as it is read here.
#[derive(Debug, Clone, PartialEq, Eq, Default)]
pub struct StreamEntry {
    pub index: Option<u64>,
    pub codec_name: Option<String>,
    pub channels: Option<u64>,
    pub channel_layout: Option<String>,
    pub sample_rate: Option<String>,
    pub bit_rate: Option<String>,
    pub duration: Option<String>,
    /// The tags; none of them where the stream has no tags.
    pub tags: StreamTags,
}

/// The engine's report on a container, as far as it is read here.
#[derive(Debug, Clone, PartialEq, Eq, Default)]
pub struct ProbeReport {
    /// The duration of the whole container, as the engine wrote it.
    pub format_duration: Option<String>,
    pub streams: Vec<StreamEntry>,
}

/// The tags of a stream as plain text.
pub struct StreamTagsModel {
    pub language: Option<Seq<char>>,
    pub title: Option<Seq<char>>,
    pub bps: Option<Seq<char>>,
    pub bps_eng: Option<Seq<char>>,
    pub encoder_options: Option<Seq<char>>,
    pub number_of_bytes: Option<Seq<char>>,
}

/// A stream of the report as plain text.
pub struct StreamEntryModel {
    pub index: Option<u64>,
    pub codec_name: Option<Seq<char>>,
    pub channels: Option<u64>,
    pub channel_layout: Option<Seq<char>>,
    pub sample_rate: Option<Seq<char>>,
    pub bit_rate: Option<Seq<char>>,
    pub duration: Option<Seq<char>>,
    pub tags: StreamTagsModel,
}

/// A report as plain text.
pub struct ProbeReportModel {
    pub format_duration: Option<Seq<char>>,
    pub streams: Seq<StreamEntryModel>,
}

impl View for StreamTags {
    type V = StreamTagsModel;

    open spec fn view(&self) -> StreamTagsModel {
        StreamTagsModel {
            language: optional_text(self.language),
            title: optional_text(self.title),
            bps: optional_text(self.bps),
            bps_eng: optional_text(self.bps_eng),
            encoder_options: optional_text(self.encoder_options),
            number_of_bytes: optional_text(self.number_of_bytes),
        }
    }
}

impl View for StreamEntry {
    type V = StreamEntryModel;

    open spec fn view(&self) -> StreamEntryModel {
        StreamEntryModel {
            index: self.index,
            codec_name: optional_text(self.codec_name),
            channels: self.channels,
            channel_layout: optional_text(self.channel_layout),
            sample_rate: optional_text(self.sample_rate),
            bit_rate: optional_text(self.bit_rate),
            duration: optional_text(self.duration),
            tags: self.tags@,
        }
    }
}

/// The streams as plain text.
pub open spec fn entries(streams: Seq<StreamEntry>) -> Seq<StreamEntryModel> {
    Seq::new(streams.len(), |i: int| streams[i]@)
}

impl View for ProbeReport {
    type V = ProbeReportModel;

    open spec fn view(&self) -> ProbeReportModel {
        ProbeReportModel {
            format_duration: optional_text(self.format_duration),
            streams: entries(self.streams@),
        }
    }
}

/// The text under `key` in an object.
pub open spec fn text_at(tree: JsonTree, key: Seq<char>) -> Option<Seq<char>> {
    text_in(member_of(tree, key))
}

/// The text under `inner` in the object under `outer`.
pub open spec fn nested_text(tree: JsonTree, outer: Seq<char>, inner: Seq<char>) -> Option<Seq<char>> {
    match member_of(tree, outer) {
        Some(object) => text_at(object, inner),
        None => None,
    }
}

/// The tags of a stream: what stands under each name in its member `tags`.
pub open spec fn tags_of(stream: JsonTree) -> StreamTagsModel {
    StreamTagsModel {
        language: nested_text(stream, "tags"@, "language"@),
        title: nested_text(stream, "tags"@, "title"@),
        bps: nested_text(stream, "tags"@, "BPS"@),
        bps_eng: nested_text(stream, "tags"@, "BPS-eng"@),
        encoder_options: nested_text(stream, "tags"@, "ENCODER_OPTIONS"@),
        number_of_bytes: nested_text(stream, "tags"@, "NUMBER_OF_BYTES"@),
    }
}

/// What is read of one stream of the report.
pub open spec fn entry_of(stream: JsonTree) -> StreamEntryModel {
    StreamEntryModel {
        index: number_in(member_of(stream, "index"@)),
        codec_name: text_at(stream, "codec_name"@),
        channels: number_in(member_of(stream, "channels"@)),
        channel_layout: text_at(stream, "channel_layout"@),
        sample_rate: text_at(stream, "sample_rate"@),
        bit_rate: text_at(stream, "bit_rate"@),
        duration: text_at(stream, "duration"@),
        tags: tags_of(stream),
    }
}

/// What is read of the engine's report: the duration under `format`, and the
/// streams under `streams`, none where that is no array.
pub open spec fn report_of(document: JsonTree) -> ProbeReportModel {
    ProbeReportModel {
        format_duration: nested_text(document, "format"@, "duration"@),
        streams: match items_in(member_of(document, "streams"@)) {
            Some(items) => items.map_values(|item: JsonTree| entry_of(item)),
            None => Seq::empty(),
        },
    }
}

/// Reads the text under `key`.
fn text_member(v: &Value, key: &str) -> (r: Option<String>)
    ensures
        optional_text(r) == text_at(json_tree(*v), key@),
{
    match member(v, key) {
        Some(m) => match as_text(m) {
            Some(s) => Some(s.to_owned()),
            None => None,
        },
        None => None,
    }
}

/// Reads the number under `key`.
fn number_member(v: &Value, key: &str) -> (r: Option<u64>)
    ensures
        r == number_in(member_of(json_tree(*v), key@)),
{
    match member(v, key) {
        Some(m) => as_number(m),
        None => None,
    }
}

/// Reads the text under `inner` in the object under `outer`.
fn nested_member(v: &Value, outer: &str, inner: &str) -> (r: Option<String>)
    ensures
        optional_text(r) == nested_text(json_tree(*v), outer@, inner@),
{
    match member(v, outer) {
        Some(object) => text_member(object, inner),
        None => None,
    }
}

/// Reads the tags of a stream.
fn read_tags(stream: &Value) -> (r: StreamTags)
    ensures
        r@ == tags_of(json_tree(*stream)),
{
    StreamTags {
        language: nested_member(stream, "tags", "language"),
        title: nested_member(stream, "tags", "title"),
        bps: nested_member(stream, "tags", "BPS"),
        bps_eng: nested_member(stream, "tags", "BPS-eng"),
        encoder_options: nested_member(stream, "tags", "ENCODER_OPTIONS"),
        number_of_bytes: nested_member(stream, "tags", "NUMBER_OF_BYTES"),
    }
}

/// Reads one stream of the engine's report.
pub fn read_stream(stream: &Value) -> (r: StreamEntry)
    ensures
        r@ == entry_of(json_tree(*stream)),
{
    StreamEntry {
        index: number_member(stream, "index"),
        codec_name: text_member(stream, "codec_name"),
        channels: number_member(stream, "channels"),
        channel_layout: text_member(stream, "channel_layout"),
        sample_rate: text_member(stream, "sample_rate"),
        bit_rate: text_member(stream, "bit_rate"),
        duration: text_member(stream, "duration"),
        tags: read_tags(stream),
    }
}

/// Reads the engine's report on a container.
pub fn read_report(document: &Value) -> (r: ProbeReport)
    ensures
        r@ == report_of(json_tree(*document)),
{
    let format_duration = nested_member(document, "format", "duration");
    let mut streams: Vec<StreamEntry> = Vec::new();
    match member(document, "streams") {
        Some(listed) => match as_items(listed) {
            Some(items) => {
                let ghost wanted = trees(items@).map_values(|item: JsonTree| entry_of(item));
                let mut i: usize = 0;
                while i < items.len()
                    invariant
                        i <= items.len(),
                        wanted == trees(items@).map_values(|item: JsonTree| entry_of(item)),
                        entries(streams@) == wanted.take(i as int),
                    decreases items.len() - i,
                {
                    let entry = read_stream(&items[i]);
                    let ghost before = entries(streams@);
                    streams.push(entry);
                    assert(entries(streams@) =~= before.push(entry@));
                    assert(wanted.take(i + 1) =~= wanted.take(i as int).push(wanted[i as int]));
                    i += 1;
                }
                assert(wanted.take(i as int) =~= wanted);
            },
            None => {
                assert(entries(streams@) =~= Seq::<StreamEntryModel>::empty());
            },
        },
        None => {
            assert(entries(streams@) =~= Seq::<StreamEntryModel>::empty());
        },
    }
    ProbeReport { format_duration, streams }
}

} // verus!
