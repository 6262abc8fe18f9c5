//! The transcoder's command-line contract: the exact argument lists for the
//! trim and mux invocations. The encode settings are fixed policy — a fast
//! preset and a transport-stream container for intermediate segments, a
//! compatibility re-encode for the final output, and `-shortest` so the
//! output runs as long as the shorter of the concatenated video and the
//! audio track.

use crate::machine::Action;
use crate::text::ms_arg_spec;
use crate::text::ms_to_seconds_arg;
use vstd::prelude::*;
use vstd::string::*;

verus! {

/// The argument list of one trim invocation: overwrite without prompting,
/// seek to the clip's start, limit to its duration, re-encode video and
/// audio with the fast preset, and write a transport-stream segment.
pub open spec fn trim_args_spec(
    source: Seq<char>,
    start_ms: u64,
    duration_ms: u64,
    segment: Seq<char>,
) -> Seq<Seq<char>> {
    seq![
        "-y"@,
        "-ss"@,
        ms_arg_spec(start_ms),
        "-t"@,
        ms_arg_spec(duration_ms),
        "-i"@,
        source,
        "-c:v"@,
        "libx264"@,
        "-preset"@,
        "ultrafast"@,
        "-c:a"@,
        "aac"@,
        "-f"@,
        "mpegts"@,
        segment,
    ]
}

/// The argument list of the final invocation: concat-demuxer mode over the
/// manifest, the audio track as second input, explicit stream selection
/// (video from the manifest, audio from the track), a compatibility
/// re-encode, and `-shortest` to truncate to the shorter input stream.
pub open spec fn mux_args_spec(
    manifest: Seq<char>,
    audio: Seq<char>,
    output: Seq<char>,
) -> Seq<Seq<char>> {
    seq![
        "-y"@,
        "-f"@,
        "concat"@,
        "-safe"@,
        "0"@,
        "-i"@,
        manifest,
        "-i"@,
        audio,
        "-map"@,
        "0:v"@,
        "-map"@,
        "1:a"@,
        "-c:v"@,
        "libx264"@,
        "-preset"@,
        "medium"@,
        "-c:a"@,
        "aac"@,
        "-shortest"@,
        output,
    ]
}

/// Builds the trim invocation's arguments.
pub fn trim_args(source: &str, start_ms: u64, duration_ms: u64, segment: &str) -> (r: Vec<String>)
    ensures
        r.deep_view() == trim_args_spec(source@, start_ms, duration_ms, segment@),
{
    let mut r: Vec<String> = Vec::new();
    r.push(String::from_str("-y"));
    r.push(String::from_str("-ss"));
    r.push(ms_to_seconds_arg(start_ms));
    r.push(String::from_str("-t"));
    r.push(ms_to_seconds_arg(duration_ms));
    r.push(String::from_str("-i"));
    r.push(String::from_str(source));
    r.push(String::from_str("-c:v"));
    r.push(String::from_str("libx264"));
    r.push(String::from_str("-preset"));
    r.push(String::from_str("ultrafast"));
    r.push(String::from_str("-c:a"));
    r.push(String::from_str("aac"));
    r.push(String::from_str("-f"));
    r.push(String::from_str("mpegts"));
    r.push(String::from_str(segment));
    proof {
        assert(r.deep_view() =~= trim_args_spec(source@, start_ms, duration_ms, segment@));
    }
    r
}

/// Builds the mux invocation's arguments.
pub fn mux_args(manifest: &str, audio: &str, output: &str) -> (r: Vec<String>)
    ensures
        r.deep_view() == mux_args_spec(manifest@, audio@, output@),
{
    let mut r: Vec<String> = Vec::new();
    r.push(String::from_str("-y"));
    r.push(String::from_str("-f"));
    r.push(String::from_str("concat"));
    r.push(String::from_str("-safe"));
    r.push(String::from_str("0"));
    r.push(String::from_str("-i"));
    r.push(String::from_str(manifest));
    r.push(String::from_str("-i"));
    r.push(String::from_str(audio));
    r.push(String::from_str("-map"));
    r.push(String::from_str("0:v"));
    r.push(String::from_str("-map"));
    r.push(String::from_str("1:a"));
    r.push(String::from_str("-c:v"));
    r.push(String::from_str("libx264"));
    r.push(String::from_str("-preset"));
    r.push(String::from_str("medium"));
    r.push(String::from_str("-c:a"));
    r.push(String::from_str("aac"));
    r.push(String::from_str("-shortest"));
    r.push(String::from_str(output));
    proof {
        assert(r.deep_view() =~= mux_args_spec(manifest@, audio@, output@));
    }
    r
}

/// The arguments the application must pass for an action that invokes the
/// transcoder; actions that are plain file-system work carry none.
pub fn action_args(action: &Action) -> (r: Option<Vec<String>>)
    ensures
        match action {
            Action::RunTrim { source, start_ms, duration_ms, segment, .. } => r matches Some(v)
                && v.deep_view() == trim_args_spec(source@, *start_ms, *duration_ms, segment@),
            Action::RunMux { manifest, audio, output, .. } => r matches Some(v) && v.deep_view()
                == mux_args_spec(manifest@, audio@, output@),
            _ => r is None,
        },
{
    match action {
        Action::RunTrim { source, start_ms, duration_ms, segment, .. } => Some(
            trim_args(source.as_str(), *start_ms, *duration_ms, segment.as_str()),
        ),
        Action::RunMux { manifest, audio, output, .. } => Some(
            mux_args(manifest.as_str(), audio.as_str(), output.as_str()),
        ),
        _ => None,
    }
}

} // verus!
