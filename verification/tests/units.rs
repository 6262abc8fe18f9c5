use video_export::clip::ClipSelection;
use video_export::error::ExportError;
use video_export::manifest::ConcatManifest;
use video_export::progress::trim_progress;
use video_export::text::join_path;
use video_export::text::normalize_separators;
use video_export::text::u64_to_dec;
use video_export::text::ms_to_seconds_arg;
use video_export::thumbnail::thumbnail_data_url;
use video_export::transcoder::mux_args;
use video_export::transcoder::trim_args;

#[test]
fn decimal_rendering() {
    assert_eq!(u64_to_dec(0), "0");
    assert_eq!(u64_to_dec(7), "7");
    assert_eq!(u64_to_dec(10), "10");
    assert_eq!(u64_to_dec(105), "105");
    assert_eq!(u64_to_dec(18446744073709551615), "18446744073709551615");
}

#[test]
fn path_joining_and_normalizing() {
    assert_eq!(join_path("/tmp", "rvj_export"), "/tmp/rvj_export");
    assert_eq!(normalize_separators("C:\\a\\b/c.ts"), "C:/a/b/c.ts");
    assert_eq!(normalize_separators(""), "");
    assert_eq!(normalize_separators("no-change"), "no-change");
}

#[test]
fn clip_duration() {
    let c = ClipSelection {
        source_path: String::from("a.mp4"),
        start_ms: 1500,
        end_ms: 4000,
    };
    assert_eq!(c.duration_ms(), 2500);
}

#[test]
fn manifest_rendering() {
    let mut m = ConcatManifest::new();
    assert_eq!(m.render(), "");
    m.push(String::from("/w/clip_0.ts"));
    m.push(String::from("/w/clip_1.ts"));
    m.push(String::from("/w/clip_2.ts"));
    assert_eq!(m.len(), 3);
    assert_eq!(
        m.render(),
        "file '/w/clip_0.ts'\nfile '/w/clip_1.ts'\nfile '/w/clip_2.ts'\n"
    );
}

#[test]
fn progress_formula_rounds_half_up() {
    // one of three clips done: round(1/4 * 50) = round(12.5) = 13
    assert_eq!(trim_progress(1, 3), 13);
    assert_eq!(trim_progress(2, 3), 25);
    assert_eq!(trim_progress(3, 3), 38);
    // the last trim never exceeds 50
    assert_eq!(trim_progress(1, 1), 25);
    assert_eq!(trim_progress(9, 9), 45);
    for total in 1..40usize {
        let mut last = 0u8;
        for done in 1..=total {
            let p = trim_progress(done, total);
            assert!(p <= 50);
            assert!(p >= last);
            assert!(p > 0, "progress rounded to zero for {}/{}", done, total);
            last = p;
        }
    }
}

#[test]
fn error_messages_name_the_stage() {
    assert_eq!(
        ExportError::ToolNotFound.message(),
        "external transcoder binary not found"
    );
    assert_eq!(
        ExportError::InvalidClipRange { index: 2 }.message(),
        "clip 2 has an empty or reversed time range"
    );
    assert_eq!(
        ExportError::WorkspaceCreateFailed.message(),
        "could not create the scratch workspace directory"
    );
    assert_eq!(
        ExportError::TrimFailed { index: 7 }.message(),
        "trimming failed for clip 7"
    );
    assert_eq!(
        ExportError::ManifestWriteFailed.message(),
        "could not write the concat manifest"
    );
    assert_eq!(
        ExportError::MuxFailed.message(),
        "final concatenation and audio mux failed"
    );
    assert_eq!(
        ExportError::OutputDirCreateFailed.message(),
        "could not create the output directory"
    );
}

#[test]
fn milliseconds_render_as_fractional_seconds() {
    assert_eq!(ms_to_seconds_arg(0), "0.000");
    assert_eq!(ms_to_seconds_arg(5000), "5.000");
    assert_eq!(ms_to_seconds_arg(10250), "10.250");
    assert_eq!(ms_to_seconds_arg(999), "0.999");
    assert_eq!(ms_to_seconds_arg(61001), "61.001");
}

#[test]
fn trim_invocation_arguments() {
    let args = trim_args("a.mp4", 0, 5000, "/tmp/rvj_export/clip_0.ts");
    assert_eq!(
        args,
        vec![
            "-y", "-ss", "0.000", "-t", "5.000", "-i", "a.mp4", "-c:v", "libx264", "-preset",
            "ultrafast", "-c:a", "aac", "-f", "mpegts", "/tmp/rvj_export/clip_0.ts",
        ]
    );
}

#[test]
fn mux_invocation_arguments_truncate_to_shortest() {
    let args = mux_args("/tmp/rvj_export/concat.txt", "music.mp3", "out.mp4");
    assert_eq!(
        args,
        vec![
            "-y", "-f", "concat", "-safe", "0", "-i", "/tmp/rvj_export/concat.txt", "-i",
            "music.mp3", "-map", "0:v", "-map", "1:a", "-c:v", "libx264", "-preset", "medium",
            "-c:a", "aac", "-shortest", "out.mp4",
        ]
    );
}

#[test]
fn thumbnail_data_url_encodes_png_bytes() {
    // "hi" encodes to "aGk=" under the standard padded alphabet.
    let url = thumbnail_data_url(&vec![b'h', b'i']);
    assert_eq!(url, "data:image/png;base64,aGk=");
    let empty = thumbnail_data_url(&Vec::new());
    assert_eq!(empty, "data:image/png;base64,");
    let bytes = vec![0u8, 255, 17, 3];
    let url2 = thumbnail_data_url(&bytes);
    assert_eq!(url2, "data:image/png;base64,AP8RAw==");
}
