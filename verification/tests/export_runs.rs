use video_export::clip::ClipSelection;
use video_export::clip::ExportRequest;
use video_export::error::ExportError;
use video_export::machine::Action;
use video_export::machine::Event;
use video_export::machine::ExportMachine;

fn clip(source: &str, start_ms: u64, end_ms: u64) -> ClipSelection {
    ClipSelection { source_path: String::from(source), start_ms, end_ms }
}

fn request(clips: Vec<ClipSelection>, audio: &str, output: &str) -> ExportRequest {
    ExportRequest {
        clips,
        audio_path: String::from(audio),
        output_path: String::from(output),
    }
}

/// Drives a run, feeding the scripted events in order (and `Success` once
/// the script is exhausted), and returns every action and progress value
/// handed out, with the outcome.
fn drive(
    req: ExportRequest,
    tool: &str,
    tool_exists: bool,
    temp_root: &str,
    script: &[Event],
) -> (Vec<Action>, Vec<u8>, Result<String, ExportError>) {
    let mut actions: Vec<Action> = Vec::new();
    let mut progress: Vec<u8> = Vec::new();
    let (mut m, first) = ExportMachine::start(
        req,
        String::from(tool),
        tool_exists,
        String::from(temp_root),
    );
    if let Some(a) = first {
        actions.push(a);
    }
    let mut fed: usize = 0;
    while !m.finished() {
        let ev = if fed < script.len() { script[fed] } else { Event::Success };
        fed += 1;
        let out = m.step(ev);
        if let Some(p) = out.progress {
            progress.push(p);
        }
        if let Some(a) = out.action {
            actions.push(a);
        }
    }
    let outcome = m.outcome();
    (actions, progress, outcome)
}

#[test]
fn two_clips_full_success() {
    let req = request(
        vec![clip("a.mp4", 0, 5000), clip("b.mp4", 10000, 12000)],
        "music.mp3",
        "out.mp4",
    );
    let (actions, progress, outcome) = drive(req, "/tools/ffmpeg", true, "/tmp", &[]);
    assert_eq!(outcome, Ok(String::from("out.mp4")));
    assert_eq!(actions.len(), 7);
    assert_eq!(
        actions[0],
        Action::CreateWorkspace { dir: String::from("/tmp/rvj_export") }
    );
    assert_eq!(
        actions[1],
        Action::RunTrim {
            index: 0,
            tool: String::from("/tools/ffmpeg"),
            source: String::from("a.mp4"),
            start_ms: 0,
            duration_ms: 5000,
            segment: String::from("/tmp/rvj_export/clip_0.ts"),
        }
    );
    assert_eq!(
        actions[2],
        Action::RunTrim {
            index: 1,
            tool: String::from("/tools/ffmpeg"),
            source: String::from("b.mp4"),
            start_ms: 10000,
            duration_ms: 2000,
            segment: String::from("/tmp/rvj_export/clip_1.ts"),
        }
    );
    assert_eq!(
        actions[3],
        Action::WriteManifest {
            path: String::from("/tmp/rvj_export/concat.txt"),
            content: String::from(
                "file '/tmp/rvj_export/clip_0.ts'\nfile '/tmp/rvj_export/clip_1.ts'\n"
            ),
        }
    );
    assert_eq!(
        actions[4],
        Action::EnsureOutputDir { output: String::from("out.mp4") }
    );
    assert_eq!(
        actions[5],
        Action::RunMux {
            tool: String::from("/tools/ffmpeg"),
            manifest: String::from("/tmp/rvj_export/concat.txt"),
            audio: String::from("music.mp3"),
            output: String::from("out.mp4"),
        }
    );
    assert_eq!(
        actions[6],
        Action::RemoveWorkspace { dir: String::from("/tmp/rvj_export") }
    );
    // round(1/3 * 50) = 17, round(2/3 * 50) = 33, then the final 100.
    assert_eq!(progress, vec![17, 33, 100]);
}

#[test]
fn second_trim_failure_aborts_run() {
    let req = request(
        vec![clip("a.mp4", 0, 5000), clip("missing.mp4", 10000, 12000)],
        "music.mp3",
        "out.mp4",
    );
    let script = [Event::Success, Event::Success, Event::Failure];
    let (actions, progress, outcome) = drive(req, "/tools/ffmpeg", true, "/tmp", &script);
    assert_eq!(outcome, Err(ExportError::TrimFailed { index: 1 }));
    // Workspace creation, both trim attempts, then cleanup - nothing else.
    assert_eq!(actions.len(), 4);
    assert!(matches!(actions[1], Action::RunTrim { index: 0, .. }));
    assert!(matches!(actions[2], Action::RunTrim { index: 1, .. }));
    assert!(!actions.iter().any(|a| matches!(a, Action::WriteManifest { .. })));
    assert!(!actions.iter().any(|a| matches!(a, Action::RunMux { .. })));
    assert_eq!(
        actions[3],
        Action::RemoveWorkspace { dir: String::from("/tmp/rvj_export") }
    );
    assert_eq!(progress, vec![17]);
}

#[test]
fn missing_tool_fails_before_any_work() {
    let req = request(vec![clip("a.mp4", 0, 5000)], "music.mp3", "out.mp4");
    let (actions, progress, outcome) = drive(req, "/nowhere/ffmpeg", false, "/tmp", &[]);
    assert_eq!(outcome, Err(ExportError::ToolNotFound));
    assert!(actions.is_empty());
    assert!(progress.is_empty());
}

#[test]
fn reversed_range_rejected_before_any_work() {
    let req = request(
        vec![clip("a.mp4", 0, 5000), clip("b.mp4", 9000, 9000)],
        "music.mp3",
        "out.mp4",
    );
    let (actions, progress, outcome) = drive(req, "/tools/ffmpeg", true, "/tmp", &[]);
    assert_eq!(outcome, Err(ExportError::InvalidClipRange { index: 1 }));
    assert!(actions.is_empty());
    assert!(progress.is_empty());
}

#[test]
fn empty_request_rejected() {
    let req = request(vec![], "music.mp3", "out.mp4");
    let (actions, _, outcome) = drive(req, "/tools/ffmpeg", true, "/tmp", &[]);
    assert_eq!(outcome, Err(ExportError::InvalidClipRange { index: 0 }));
    assert!(actions.is_empty());
}

#[test]
fn workspace_creation_failure_stops_run() {
    let req = request(vec![clip("a.mp4", 0, 5000)], "music.mp3", "out.mp4");
    let script = [Event::Failure];
    let (actions, progress, outcome) = drive(req, "/tools/ffmpeg", true, "/tmp", &script);
    assert_eq!(outcome, Err(ExportError::WorkspaceCreateFailed));
    assert_eq!(actions.len(), 1);
    assert!(matches!(actions[0], Action::CreateWorkspace { .. }));
    assert!(progress.is_empty());
}

#[test]
fn manifest_write_failure_cleans_up() {
    let req = request(vec![clip("a.mp4", 0, 1000)], "music.mp3", "out.mp4");
    // create ok, trim ok, manifest write fails
    let script = [Event::Success, Event::Success, Event::Failure];
    let (actions, _, outcome) = drive(req, "/tools/ffmpeg", true, "/tmp", &script);
    assert_eq!(outcome, Err(ExportError::ManifestWriteFailed));
    assert!(matches!(actions.last(), Some(Action::RemoveWorkspace { .. })));
    assert!(!actions.iter().any(|a| matches!(a, Action::RunMux { .. })));
}

#[test]
fn mux_failure_cleans_up_without_full_progress() {
    let req = request(vec![clip("a.mp4", 0, 1000)], "music.mp3", "out.mp4");
    // create, trim, manifest, output dir ok; mux fails
    let script = [
        Event::Success,
        Event::Success,
        Event::Success,
        Event::Success,
        Event::Failure,
    ];
    let (actions, progress, outcome) = drive(req, "/tools/ffmpeg", true, "/tmp", &script);
    assert_eq!(outcome, Err(ExportError::MuxFailed));
    assert!(matches!(actions.last(), Some(Action::RemoveWorkspace { .. })));
    assert!(!progress.contains(&100));
}

#[test]
fn output_dir_failure_cleans_up() {
    let req = request(vec![clip("a.mp4", 0, 1000)], "music.mp3", "out.mp4");
    let script = [Event::Success, Event::Success, Event::Success, Event::Failure];
    let (actions, _, outcome) = drive(req, "/tools/ffmpeg", true, "/tmp", &script);
    assert_eq!(outcome, Err(ExportError::OutputDirCreateFailed));
    assert!(matches!(actions.last(), Some(Action::RemoveWorkspace { .. })));
    assert!(!actions.iter().any(|a| matches!(a, Action::RunMux { .. })));
}

#[test]
fn progress_is_monotone_and_ends_at_100() {
    let clips = vec![
        clip("a.mp4", 0, 1000),
        clip("b.mp4", 0, 1000),
        clip("c.mp4", 0, 1000),
        clip("d.mp4", 0, 1000),
    ];
    let req = request(clips, "music.mp3", "out.mp4");
    let (_, progress, outcome) = drive(req, "/tools/ffmpeg", true, "/tmp", &[]);
    assert!(outcome.is_ok());
    assert_eq!(progress.len(), 5);
    for w in progress.windows(2) {
        assert!(w[0] <= w[1]);
    }
    for p in &progress[..4] {
        assert!(*p > 0 && *p <= 50);
    }
    assert_eq!(*progress.last().unwrap(), 100);
    // round(1/5 * 50) = 10, and so on up the trim stage.
    assert_eq!(progress, vec![10, 20, 30, 40, 100]);
}

#[test]
fn backslash_workspace_paths_are_normalized_in_manifest() {
    let req = request(vec![clip("a.mp4", 0, 1000)], "music.mp3", "out.mp4");
    let (actions, _, outcome) = drive(req, "C:\\tools\\ffmpeg.exe", true, "C:\\scratch", &[]);
    assert!(outcome.is_ok());
    let manifest = actions
        .iter()
        .find_map(|a| match a {
            Action::WriteManifest { content, .. } => Some(content.clone()),
            _ => None,
        })
        .unwrap();
    assert_eq!(manifest, "file 'C:/scratch/rvj_export/clip_0.ts'\n");
}

#[test]
fn identical_runs_classify_identically() {
    let make = || {
        request(
            vec![clip("a.mp4", 0, 5000), clip("b.mp4", 10000, 12000)],
            "music.mp3",
            "out.mp4",
        )
    };
    let first = drive(make(), "/tools/ffmpeg", true, "/tmp", &[]);
    let second = drive(make(), "/tools/ffmpeg", true, "/tmp", &[]);
    assert_eq!(first.0, second.0);
    assert_eq!(first.1, second.1);
    assert_eq!(first.2, second.2);

    let script = [Event::Success, Event::Failure];
    let first_f = drive(make(), "/tools/ffmpeg", true, "/tmp", &script);
    let second_f = drive(make(), "/tools/ffmpeg", true, "/tmp", &script);
    assert_eq!(first_f.2, Err(ExportError::TrimFailed { index: 0 }));
    assert_eq!(first_f.0, second_f.0);
    assert_eq!(first_f.2, second_f.2);
}

#[test]
fn manifest_lines_match_clip_count_and_order() {
    for n in 1..6u64 {
        let clips: Vec<ClipSelection> = (0..n)
            .map(|i| clip(&format!("src{}.mp4", i), i * 1000, i * 1000 + 500))
            .collect();
        let req = request(clips, "music.mp3", "out.mp4");
        let (actions, _, outcome) = drive(req, "/tools/ffmpeg", true, "/tmp", &[]);
        assert!(outcome.is_ok());
        let manifest = actions
            .iter()
            .find_map(|a| match a {
                Action::WriteManifest { content, .. } => Some(content.clone()),
                _ => None,
            })
            .unwrap();
        let lines: Vec<&str> = manifest.lines().collect();
        assert_eq!(lines.len(), n as usize);
        for (i, line) in lines.iter().enumerate() {
            assert_eq!(*line, format!("file '/tmp/rvj_export/clip_{}.ts'", i));
        }
    }
}
