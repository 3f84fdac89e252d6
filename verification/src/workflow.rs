use vstd::prelude::*;
use crate::cli::Args;
use crate::task::{Settings, Task};
use crate::text::{from_chars, push_str, spells, to_chars, trim, trimmed};

verus! {

/// The name of the scratch file that holds the stream to be edited, extracted losslessly.
pub const EXTRACTED_FILE_NAME: &'static str = "target_audio.flac";

/// The name of the scratch file that holds the edited track, fitted to the length of the stream.
pub const FITTED_FILE_NAME: &'static str = "target_audio_final_fitted.flac";

/// What a run is to do.
#[derive(Debug, Clone, PartialEq, Eq)]
pub enum Mode {
    /// Report what is found of the engine on this machine.
    CheckFfmpeg,
    /// List the audio streams of this input.
    Inspect(String),
    /// Edit a stream.
    Process,
}

/// A listing of the streams was asked for, but of no input.
#[derive(Debug, Clone, Copy, PartialEq, Eq, Structural)]
pub struct InspectWithoutInput;

/// Decides what the run is to do. The check of the engine goes before the
/// listing of streams, and that before the editing.
pub fn run_mode(args: &Args) -> (r: Result<Mode, InspectWithoutInput>)
    ensures
        args.check_ffmpeg ==> r == Ok::<Mode, InspectWithoutInput>(Mode::CheckFfmpeg),
        !args.check_ffmpeg && args.inspect ==> match args.input {
            Some(input) => r matches Ok(Mode::Inspect(named)) && named@ == input@,
            None => r is Err,
        },
        !args.check_ffmpeg && !args.inspect ==> r == Ok::<Mode, InspectWithoutInput>(Mode::Process),
{
    if args.check_ffmpeg {
        Ok(Mode::CheckFfmpeg)
    } else if args.inspect {
        match &args.input {
            Some(input) => Ok(Mode::Inspect(input.clone())),
            None => Err(InspectWithoutInput),
        }
    } else {
        Ok(Mode::Process)
    }
}

/// The name under which a stream is shown: its title, else its language, else `Untitled`.
pub open spec fn shown_name(title: Seq<char>, language: Seq<char>) -> Seq<char> {
    if title.len() > 0 {
        title
    } else if language.len() > 0 {
        language
    } else {
        "Untitled"@
    }
}

/// The name under which a stream is shown.
pub fn stream_name(title: &str, language: &str) -> (r: String)
    ensures
        r@ == shown_name(title@, language@),
{
    if !title.is_empty() {
        title.to_owned()
    } else if !language.is_empty() {
        language.to_owned()
    } else {
        "Untitled".to_owned()
    }
}

/// The ending of the file that holds the track encoded with `codec`: the
/// name of the codec for those that have a file format of their own, else
/// that of a Matroska audio file, which holds any.
pub open spec fn extension_of(codec: Seq<char>) -> Seq<char> {
    if codec == "aac"@ || codec == "ac3"@ || codec == "dts"@ || codec == "mp3"@ || codec == "opus"@ {
        codec
    } else {
        "mka"@
    }
}

/// The name of the file that holds the track encoded with `codec`, ready to be put into the container.
pub open spec fn encoded_name(codec: Seq<char>) -> Seq<char> {
    "final_for_remux."@ + extension_of(codec)
}

/// The ending of the file that holds the track encoded with `codec`.
pub fn final_extension(codec: &str) -> (r: String)
    ensures
        r@ == extension_of(codec@),
{
    let name = to_chars(codec);
    if spells(&name, "aac") || spells(&name, "ac3") || spells(&name, "dts") || spells(&name, "mp3")
        || spells(&name, "opus") {
        codec.to_owned()
    } else {
        "mka".to_owned()
    }
}

/// The name of the file that holds the track encoded with `codec`.
pub fn encoded_file_name(codec: &str) -> (r: String)
    ensures
        r@ == encoded_name(codec@),
{
    let mut name: Vec<char> = Vec::new();
    push_str(&mut name, "final_for_remux.");
    push_str(&mut name, final_extension(codec).as_str());
    from_chars(&name)
}

/// Whether the answer agrees to the plan: it does where it is `y` or `Y`, with white space around it or not.
pub open spec fn agrees(answer: Seq<char>) -> bool {
    trimmed(answer) == seq!['y'] || trimmed(answer) == seq!['Y']
}

/// Whether the answer agrees to the plan.
pub fn is_confirmed(answer: &str) -> (r: bool)
    ensures
        r == agrees(answer@),
{
    let word = trim(&to_chars(answer));
    let confirmed = word.len() == 1 && (word[0] == 'y' || word[0] == 'Y');
    proof {
        if confirmed {
            assert(word@ =~= seq![word@[0]]);
        }
    }
    confirmed
}

/// The task file that describes the settled job, encoded at `bitrate`.
pub fn task_of(settings: &Settings, bitrate: &str) -> (r: Task)
    ensures
        r.input matches Some(input) && input@ == settings.input@,
        r.output matches Some(output) && output@ == settings.output@,
        r.stream == Some(settings.stream),
        r.initial_delay == Some(settings.initial_delay),
        r.splits@ == settings.splits@,
        r.split_ranges@ == settings.split_ranges@,
        r.bitrate matches Some(rate) && rate@ == bitrate@,
        r.silence_threshold == Some(settings.silence_threshold),
        r.fit_length == Some(settings.fit_length),
{
    Task {
        input: Some(settings.input.clone()),
        output: Some(settings.output.clone()),
        stream: Some(settings.stream),
        initial_delay: Some(settings.initial_delay),
        splits: settings.splits.clone(),
        split_ranges: settings.split_ranges.clone(),
        bitrate: Some(bitrate.to_owned()),
        silence_threshold: Some(settings.silence_threshold),
        fit_length: Some(settings.fit_length),
    }
}

} // verus!
