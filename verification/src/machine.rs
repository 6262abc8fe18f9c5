//! The export orchestrator, written as an explicit state machine.
//!
//! The machine owns every decision of the pipeline — which external action
//! comes next, how a stage's success or failure changes the run, which
//! progress value is due, and when the workspace is released — while the
//! embedding application merely performs each returned [`Action`] (a
//! subprocess invocation or a file-system call) and reports back whether it
//! succeeded. A ghost trace of every action handed out, and of every
//! progress value, is carried along; the well-formedness predicate pins the
//! trace exactly per phase, and the lemmas at the end of this module state
//! the ordering, progress, fail-fast and cleanup guarantees over it.

use crate::clip::clips_valid;
use crate::clip::ClipSelection;
use crate::clip::ExportRequest;
use crate::error::ExportError;
use crate::manifest::count_newlines;
use crate::manifest::render_spec;
use crate::manifest::ConcatManifest;
use crate::progress::lemma_trim_progress_le_50;
use crate::progress::lemma_trim_progress_monotone;
use crate::progress::lemma_trim_progress_nonneg;
use crate::progress::lemma_trim_progress_positive;
use crate::progress::trim_progress;
use crate::progress::trim_progress_spec;
use crate::text::dec_spec;
use crate::text::join_path;
use crate::text::join_spec;
use crate::text::normalize_separators;
use crate::text::normalize_spec;
use crate::text::u64_to_dec;
use vstd::prelude::*;
use vstd::string::*;

verus! {

/// One piece of external work the application must perform for the machine.
#[derive(Debug, Clone, PartialEq, Eq)]
pub enum Action {
    /// Create the scratch workspace directory (and any missing parents).
    CreateWorkspace { dir: String },
    /// Invoke the transcoder to extract `[start_ms, start_ms + duration_ms)`
    /// of `source` into the intermediate `segment` file.
    RunTrim { index: usize, tool: String, source: String, start_ms: u64, duration_ms: u64, segment: String },
    /// Write `content` to the manifest file at `path`, flushing it.
    WriteManifest { path: String, content: String },
    /// Create the parent directory of the output file if it is absent.
    EnsureOutputDir { output: String },
    /// Invoke the transcoder in concat-demuxer mode over the manifest, with
    /// the audio track as second input, producing the output file.
    RunMux { tool: String, manifest: String, audio: String, output: String },
    /// Recursively delete the workspace; its own failure is ignored.
    RemoveWorkspace { dir: String },
}

/// The mathematical value of an [`Action`]: the same shape over sequences.
pub ghost enum ActV {
    CreateWorkspace { dir: Seq<char> },
    RunTrim { index: int, tool: Seq<char>, source: Seq<char>, start_ms: u64, duration_ms: u64, segment: Seq<char> },
    WriteManifest { path: Seq<char>, content: Seq<char> },
    EnsureOutputDir { output: Seq<char> },
    RunMux { tool: Seq<char>, manifest: Seq<char>, audio: Seq<char>, output: Seq<char> },
    RemoveWorkspace { dir: Seq<char> },
}

impl View for Action {
    type V = ActV;

    open spec fn view(&self) -> ActV {
        match self {
            Action::CreateWorkspace { dir } => ActV::CreateWorkspace { dir: dir@ },
            Action::RunTrim { index, tool, source, start_ms, duration_ms, segment } => ActV::RunTrim {
                index: *index as int,
                tool: tool@,
                source: source@,
                start_ms: *start_ms,
                duration_ms: *duration_ms,
                segment: segment@,
            },
            Action::WriteManifest { path, content } => ActV::WriteManifest {
                path: path@,
                content: content@,
            },
            Action::EnsureOutputDir { output } => ActV::EnsureOutputDir { output: output@ },
            Action::RunMux { tool, manifest, audio, output } => ActV::RunMux {
                tool: tool@,
                manifest: manifest@,
                audio: audio@,
                output: output@,
            },
            Action::RemoveWorkspace { dir } => ActV::RemoveWorkspace { dir: dir@ },
        }
    }
}

/// The application's report on the action it just performed.
#[derive(Debug, Clone, Copy, PartialEq, Eq, Structural)]
pub enum Event {
    /// The action completed (for a subprocess: it exited with status zero).
    Success,
    /// The action failed (a non-zero exit, or a file-system error).
    Failure,
}

/// Where the run stands; each waiting phase has exactly one action in flight.
#[derive(Debug, Clone, Copy)]
pub enum Phase {
    AcquiringWorkspace,
    Trimming { index: usize },
    WritingManifest,
    EnsuringOutputDir,
    Muxing,
    CleaningUp,
    Finished,
}

/// What one `step` hands back: a progress value to emit (fire-and-forget,
/// emitted before the action is performed) and the next action, if any.
pub struct StepOutput {
    pub progress: Option<u8>,
    pub action: Option<Action>,
}

/// The segment file name for clip `i`: an intermediate transport-stream
/// container chosen for trivial stream-level concatenation.
pub open spec fn seg_name_spec(i: nat) -> Seq<char> {
    "clip_"@ + dec_spec(i) + ".ts"@
}

/// The orchestrator: sequences workspace acquisition, per-clip trims,
/// manifest writing, output-directory creation, the final mux and cleanup,
/// with all-or-nothing failure semantics.
///
/// The workspace lives at a fixed name under the scratch root the run was
/// started with, so at most one run per scratch root may be in flight at a
/// time; callers serialize their runs.
pub struct ExportMachine {
    pub phase: Phase,
    pub clips: Vec<ClipSelection>,
    pub audio_path: String,
    pub output_path: String,
    pub tool_path: String,
    pub workspace_dir: String,
    pub manifest: ConcatManifest,
    pub outcome: Option<Result<String, ExportError>>,
    /// Ghost trace of every action handed to the application, in order.
    pub history: Ghost<Seq<ActV>>,
    /// Ghost trace of every progress value handed to the application.
    pub reported: Ghost<Seq<u8>>,
}

impl ExportMachine {
    pub open spec fn n(self) -> int {
        self.clips@.len() as int
    }

    pub open spec fn is_finished(self) -> bool {
        self.phase is Finished
    }

    pub open spec fn create_act(self) -> ActV {
        ActV::CreateWorkspace { dir: self.workspace_dir@ }
    }

    pub open spec fn trim_act(self, j: int) -> ActV {
        ActV::RunTrim {
            index: j,
            tool: self.tool_path@,
            source: self.clips@[j].source_path@,
            start_ms: self.clips@[j].start_ms,
            duration_ms: (self.clips@[j].end_ms - self.clips@[j].start_ms) as u64,
            segment: join_spec(self.workspace_dir@, seg_name_spec(j as nat)),
        }
    }

    /// The first `k` trim actions, in clip order.
    pub open spec fn trims_upto(self, k: int) -> Seq<ActV> {
        Seq::new(k as nat, |j: int| self.trim_act(j))
    }

    /// The first `k` manifest entries: normalized segment paths, in order.
    pub open spec fn entries_upto(self, k: int) -> Seq<Seq<char>> {
        Seq::new(k as nat, |j: int| normalize_spec(join_spec(self.workspace_dir@, seg_name_spec(j as nat))))
    }

    /// The progress values due after each of the first `k` trims.
    pub open spec fn pvals_upto(self, k: int) -> Seq<u8> {
        Seq::new(k as nat, |j: int| trim_progress_spec(j + 1, self.n()) as u8)
    }

    pub open spec fn manifest_path(self) -> Seq<char> {
        join_spec(self.workspace_dir@, "concat.txt"@)
    }

    pub open spec fn wm_act(self) -> ActV {
        ActV::WriteManifest {
            path: self.manifest_path(),
            content: render_spec(self.entries_upto(self.n())),
        }
    }

    pub open spec fn ensure_act(self) -> ActV {
        ActV::EnsureOutputDir { output: self.output_path@ }
    }

    pub open spec fn mux_act(self) -> ActV {
        ActV::RunMux {
            tool: self.tool_path@,
            manifest: self.manifest_path(),
            audio: self.audio_path@,
            output: self.output_path@,
        }
    }

    pub open spec fn remove_act(self) -> ActV {
        ActV::RemoveWorkspace { dir: self.workspace_dir@ }
    }

    /// The whole success-path history up to and including the mux.
    pub open spec fn full_hist(self) -> Seq<ActV> {
        seq![self.create_act()] + self.trims_upto(self.n()) + seq![
            self.wm_act(),
            self.ensure_act(),
            self.mux_act(),
        ]
    }

    /// The trace a run that got past workspace acquisition must have left
    /// behind once its outcome is decided: the stages it completed, in
    /// order, then the one that failed (if any), then the cleanup.
    pub open spec fn after_acquire_ok(self, oc: Result<String, ExportError>) -> bool {
        match oc {
            Ok(p) => {
                &&& p@ == self.output_path@
                &&& self.history@ == self.full_hist() + seq![self.remove_act()]
                &&& self.reported@ == self.pvals_upto(self.n()).push(100u8)
            },
            Err(e) => match e {
                ExportError::TrimFailed { index } => {
                    &&& index < self.n()
                    &&& self.history@ == seq![self.create_act()] + self.trims_upto(index + 1)
                        + seq![self.remove_act()]
                    &&& self.reported@ == self.pvals_upto(index as int)
                },
                ExportError::ManifestWriteFailed => {
                    &&& self.history@ == seq![self.create_act()] + self.trims_upto(self.n())
                        + seq![self.wm_act(), self.remove_act()]
                    &&& self.reported@ == self.pvals_upto(self.n())
                },
                ExportError::OutputDirCreateFailed => {
                    &&& self.history@ == seq![self.create_act()] + self.trims_upto(self.n())
                        + seq![self.wm_act(), self.ensure_act(), self.remove_act()]
                    &&& self.reported@ == self.pvals_upto(self.n())
                },
                ExportError::MuxFailed => {
                    &&& self.history@ == self.full_hist() + seq![self.remove_act()]
                    &&& self.reported@ == self.pvals_upto(self.n())
                },
                _ => false,
            },
        }
    }

    /// `index` names the first invalid clip (or 0 for an empty request).
    pub open spec fn first_invalid_ok(clips: Seq<ClipSelection>, index: int) -> bool {
        if clips.len() == 0 {
            index == 0
        } else {
            &&& 0 <= index < clips.len()
            &&& !clips[index].valid()
            &&& forall|j: int| 0 <= j < index ==> (#[trigger] clips[j]).valid()
        }
    }

    /// Well-formedness: ties each phase to the exact trace of actions and
    /// progress values the machine has handed out so far.
    pub open spec fn wf(self) -> bool {
        match self.phase {
            Phase::AcquiringWorkspace => {
                &&& clips_valid(self.clips@)
                &&& self.outcome is None
                &&& self.history@ == seq![self.create_act()]
                &&& self.reported@ == Seq::<u8>::empty()
                &&& self.manifest@ == Seq::<Seq<char>>::empty()
            },
            Phase::Trimming { index } => {
                &&& clips_valid(self.clips@)
                &&& index < self.n()
                &&& self.outcome is None
                &&& self.history@ == seq![self.create_act()] + self.trims_upto(index + 1)
                &&& self.reported@ == self.pvals_upto(index as int)
                &&& self.manifest@ == self.entries_upto(index as int)
            },
            Phase::WritingManifest => {
                &&& clips_valid(self.clips@)
                &&& self.outcome is None
                &&& self.history@ == seq![self.create_act()] + self.trims_upto(self.n()) + seq![
                    self.wm_act(),
                ]
                &&& self.reported@ == self.pvals_upto(self.n())
                &&& self.manifest@ == self.entries_upto(self.n())
            },
            Phase::EnsuringOutputDir => {
                &&& clips_valid(self.clips@)
                &&& self.outcome is None
                &&& self.history@ == seq![self.create_act()] + self.trims_upto(self.n()) + seq![
                    self.wm_act(),
                    self.ensure_act(),
                ]
                &&& self.reported@ == self.pvals_upto(self.n())
            },
            Phase::Muxing => {
                &&& clips_valid(self.clips@)
                &&& self.outcome is None
                &&& self.history@ == self.full_hist()
                &&& self.reported@ == self.pvals_upto(self.n())
            },
            Phase::CleaningUp => {
                &&& clips_valid(self.clips@)
                &&& self.outcome matches Some(oc) && self.after_acquire_ok(oc)
            },
            Phase::Finished => {
                &&& self.outcome matches Some(oc) && match oc {
                    Err(ExportError::InvalidClipRange { index }) => {
                        &&& Self::first_invalid_ok(self.clips@, index as int)
                        &&& self.history@ == Seq::<ActV>::empty()
                        &&& self.reported@ == Seq::<u8>::empty()
                    },
                    Err(ExportError::ToolNotFound) => {
                        &&& clips_valid(self.clips@)
                        &&& self.history@ == Seq::<ActV>::empty()
                        &&& self.reported@ == Seq::<u8>::empty()
                    },
                    Err(ExportError::WorkspaceCreateFailed) => {
                        &&& clips_valid(self.clips@)
                        &&& self.history@ == seq![self.create_act()]
                        &&& self.reported@ == Seq::<u8>::empty()
                    },
                    _ => {
                        &&& clips_valid(self.clips@)
                        &&& self.after_acquire_ok(oc)
                    },
                }
            },
        }
    }
}

/// The fields the run was created with never change while it steps.
pub open spec fn core_unchanged(pre: ExportMachine, post: ExportMachine) -> bool {
    &&& post.clips == pre.clips
    &&& post.audio_path == pre.audio_path
    &&& post.output_path == pre.output_path
    &&& post.tool_path == pre.tool_path
    &&& post.workspace_dir == pre.workspace_dir
}

/// Exactly how one step transforms the machine and what it hands back,
/// as a function of the phase the machine was in and the reported event.
pub open spec fn step_post(pre: ExportMachine, ev: Event, post: ExportMachine, r: StepOutput) -> bool {
    &&& core_unchanged(pre, post)
    &&& match pre.phase {
        Phase::AcquiringWorkspace => match ev {
            Event::Success => {
                &&& post.phase == (Phase::Trimming { index: 0 })
                &&& post.outcome is None
                &&& r.progress is None
                &&& r.action matches Some(a) && a@ == pre.trim_act(0)
                &&& post.history@ == pre.history@.push(pre.trim_act(0))
                &&& post.reported@ == pre.reported@
            },
            Event::Failure => {
                &&& post.phase is Finished
                &&& post.outcome == Some(Result::<String, ExportError>::Err(
                    ExportError::WorkspaceCreateFailed,
                ))
                &&& r.progress is None
                &&& r.action is None
                &&& post.history@ == pre.history@
                &&& post.reported@ == pre.reported@
            },
        },
        Phase::Trimming { index } => match ev {
            Event::Success => {
                &&& r.progress == Some(trim_progress_spec(index + 1, pre.n()) as u8)
                &&& post.reported@ == pre.reported@.push(trim_progress_spec(index + 1, pre.n()) as u8)
                &&& post.manifest@ == pre.manifest@.push(
                    normalize_spec(join_spec(pre.workspace_dir@, seg_name_spec(index as nat))),
                )
                &&& post.outcome is None
                &&& if index + 1 < pre.n() {
                    &&& post.phase == (Phase::Trimming { index: (index + 1) as usize })
                    &&& r.action matches Some(a) && a@ == pre.trim_act(index + 1)
                    &&& post.history@ == pre.history@.push(pre.trim_act(index + 1))
                } else {
                    &&& post.phase is WritingManifest
                    &&& r.action matches Some(a) && a@ == pre.wm_act()
                    &&& post.history@ == pre.history@.push(pre.wm_act())
                }
            },
            Event::Failure => {
                &&& post.phase is CleaningUp
                &&& post.outcome == Some(Result::<String, ExportError>::Err(
                    ExportError::TrimFailed { index },
                ))
                &&& r.progress is None
                &&& r.action matches Some(a) && a@ == pre.remove_act()
                &&& post.history@ == pre.history@.push(pre.remove_act())
                &&& post.reported@ == pre.reported@
            },
        },
        Phase::WritingManifest => match ev {
            Event::Success => {
                &&& post.phase is EnsuringOutputDir
                &&& post.outcome is None
                &&& r.progress is None
                &&& r.action matches Some(a) && a@ == pre.ensure_act()
                &&& post.history@ == pre.history@.push(pre.ensure_act())
                &&& post.reported@ == pre.reported@
            },
            Event::Failure => {
                &&& post.phase is CleaningUp
                &&& post.outcome == Some(Result::<String, ExportError>::Err(
                    ExportError::ManifestWriteFailed,
                ))
                &&& r.progress is None
                &&& r.action matches Some(a) && a@ == pre.remove_act()
                &&& post.history@ == pre.history@.push(pre.remove_act())
                &&& post.reported@ == pre.reported@
            },
        },
        Phase::EnsuringOutputDir => match ev {
            Event::Success => {
                &&& post.phase is Muxing
                &&& post.outcome is None
                &&& r.progress is None
                &&& r.action matches Some(a) && a@ == pre.mux_act()
                &&& post.history@ == pre.history@.push(pre.mux_act())
                &&& post.reported@ == pre.reported@
            },
            Event::Failure => {
                &&& post.phase is CleaningUp
                &&& post.outcome == Some(Result::<String, ExportError>::Err(
                    ExportError::OutputDirCreateFailed,
                ))
                &&& r.progress is None
                &&& r.action matches Some(a) && a@ == pre.remove_act()
                &&& post.history@ == pre.history@.push(pre.remove_act())
                &&& post.reported@ == pre.reported@
            },
        },
        Phase::Muxing => match ev {
            Event::Success => {
                &&& post.phase is CleaningUp
                &&& post.outcome matches Some(oc) && oc matches Ok(p) && p@ == pre.output_path@
                &&& r.progress == Some(100u8)
                &&& post.reported@ == pre.reported@.push(100u8)
                &&& r.action matches Some(a) && a@ == pre.remove_act()
                &&& post.history@ == pre.history@.push(pre.remove_act())
            },
            Event::Failure => {
                &&& post.phase is CleaningUp
                &&& post.outcome == Some(Result::<String, ExportError>::Err(ExportError::MuxFailed))
                &&& r.progress is None
                &&& r.action matches Some(a) && a@ == pre.remove_act()
                &&& post.history@ == pre.history@.push(pre.remove_act())
                &&& post.reported@ == pre.reported@
            },
        },
        Phase::CleaningUp => {
            &&& post.phase is Finished
            &&& post.outcome == pre.outcome
            &&& r.progress is None
            &&& r.action is None
            &&& post.history@ == pre.history@
            &&& post.reported@ == pre.reported@
        },
        Phase::Finished => false,
    }
}

impl ExportMachine {
    proof fn lemma_trims_snoc(self, k: int)
        requires
            0 <= k,
        ensures
            self.trims_upto(k + 1) == self.trims_upto(k).push(self.trim_act(k)),
    {
        assert(self.trims_upto(k + 1) =~= self.trims_upto(k).push(self.trim_act(k)));
    }

    proof fn lemma_entries_snoc(self, k: int)
        requires
            0 <= k,
        ensures
            self.entries_upto(k + 1) == self.entries_upto(k).push(
                normalize_spec(join_spec(self.workspace_dir@, seg_name_spec(k as nat))),
            ),
    {
        assert(self.entries_upto(k + 1) =~= self.entries_upto(k).push(
            normalize_spec(join_spec(self.workspace_dir@, seg_name_spec(k as nat))),
        ));
    }

    proof fn lemma_pvals_snoc(self, k: int)
        requires
            0 <= k,
        ensures
            self.pvals_upto(k + 1) == self.pvals_upto(k).push(
                trim_progress_spec(k + 1, self.n()) as u8,
            ),
    {
        assert(self.pvals_upto(k + 1) =~= self.pvals_upto(k).push(
            trim_progress_spec(k + 1, self.n()) as u8,
        ));
    }

    /// Two machines with the same creation-time fields agree on every
    /// expected-trace building block, whatever their control fields hold.
    proof fn lemma_same_core(a: ExportMachine, b: ExportMachine)
        requires
            b.clips == a.clips,
            b.audio_path == a.audio_path,
            b.output_path == a.output_path,
            b.tool_path == a.tool_path,
            b.workspace_dir == a.workspace_dir,
        ensures
            a.n() == b.n(),
            forall|j: int| #![trigger a.trim_act(j)] #![trigger b.trim_act(j)] a.trim_act(j) == b.trim_act(j),
            forall|k: int|
                #![trigger a.trims_upto(k)]
                #![trigger b.trims_upto(k)]
                0 <= k ==> a.trims_upto(k) == b.trims_upto(k),
            forall|k: int|
                #![trigger a.entries_upto(k)]
                #![trigger b.entries_upto(k)]
                0 <= k ==> a.entries_upto(k) == b.entries_upto(k),
            forall|k: int|
                #![trigger a.pvals_upto(k)]
                #![trigger b.pvals_upto(k)]
                0 <= k ==> a.pvals_upto(k) == b.pvals_upto(k),
            a.create_act() == b.create_act(),
            a.wm_act() == b.wm_act(),
            a.ensure_act() == b.ensure_act(),
            a.mux_act() == b.mux_act(),
            a.remove_act() == b.remove_act(),
            a.full_hist() == b.full_hist(),
    {
        assert forall|k: int| 0 <= k implies #[trigger] a.trims_upto(k) == b.trims_upto(k) by {
            assert(a.trims_upto(k) =~= b.trims_upto(k));
        }
        assert forall|k: int| 0 <= k implies #[trigger] a.entries_upto(k) == b.entries_upto(k) by {
            assert(a.entries_upto(k) =~= b.entries_upto(k));
        }
        assert forall|k: int| 0 <= k implies #[trigger] a.pvals_upto(k) == b.pvals_upto(k) by {
            assert(a.pvals_upto(k) =~= b.pvals_upto(k));
        }
        assert(a.entries_upto(a.n()) == b.entries_upto(b.n()));
        assert(a.full_hist() =~= b.full_hist());
    }

    /// Builds the trim action for clip `j`.
    fn trim_action(&self, j: usize) -> (a: Action)
        requires
            j < self.clips@.len(),
            self.clips@[j as int].valid(),
        ensures
            a@ == self.trim_act(j as int),
    {
        let dec = u64_to_dec(j as u64);
        let mut name = String::from_str("clip_");
        name.append(dec.as_str());
        name.append(".ts");
        let segment = join_path(self.workspace_dir.as_str(), name.as_str());
        let clip = &self.clips[j];
        Action::RunTrim {
            index: j,
            tool: self.tool_path.clone(),
            source: clip.source_path.clone(),
            start_ms: clip.start_ms,
            duration_ms: clip.end_ms - clip.start_ms,
            segment,
        }
    }

    /// Builds the workspace-removal action.
    fn remove_action(&self) -> (a: Action)
        ensures
            a@ == self.remove_act(),
    {
        Action::RemoveWorkspace { dir: self.workspace_dir.clone() }
    }

    /// Starts an export run: validates the request, checks the resolved tool
    /// path, and (when both pass) hands out the workspace-creation action.
    /// `tool_exists` is the injected path-validator's verdict on `tool_path`.
    pub fn start(request: ExportRequest, tool_path: String, tool_exists: bool, temp_root: String) -> (r: (
        ExportMachine,
        Option<Action>,
    ))
        ensures
            r.0.wf(),
            r.0.clips == request.clips,
            r.0.audio_path == request.audio_path,
            r.0.output_path == request.output_path,
            r.0.tool_path == tool_path,
            r.0.workspace_dir@ == join_spec(temp_root@, "rvj_export"@),
            !clips_valid(request.clips@) ==> {
                &&& r.0.is_finished()
                &&& r.0.outcome matches Some(Err(ExportError::InvalidClipRange { index }))
                    && ExportMachine::first_invalid_ok(request.clips@, index as int)
                &&& r.1 is None
            },
            clips_valid(request.clips@) && !tool_exists ==> {
                &&& r.0.is_finished()
                &&& r.0.outcome == Some(Result::<String, ExportError>::Err(
                    ExportError::ToolNotFound,
                ))
                &&& r.1 is None
            },
            clips_valid(request.clips@) && tool_exists ==> {
                &&& r.0.phase is AcquiringWorkspace
                &&& r.0.outcome is None
                &&& r.1 matches Some(a) && a@ == r.0.create_act()
            },
            r.0.is_finished() || r.0.phase is AcquiringWorkspace,
    {
        let workspace_dir = join_path(temp_root.as_str(), "rvj_export");
        let maybe_bad = request.first_invalid_clip();
        let ExportRequest { clips, audio_path, output_path } = request;
        match maybe_bad {
            Some(i) => {
                let m = ExportMachine {
                    phase: Phase::Finished,
                    clips,
                    audio_path,
                    output_path,
                    tool_path,
                    workspace_dir,
                    manifest: ConcatManifest::new(),
                    outcome: Some(Err(ExportError::InvalidClipRange { index: i })),
                    history: Ghost(Seq::empty()),
                    reported: Ghost(Seq::empty()),
                };
                (m, None)
            },
            None => {
                if !tool_exists {
                    let m = ExportMachine {
                        phase: Phase::Finished,
                        clips,
                        audio_path,
                        output_path,
                        tool_path,
                        workspace_dir,
                        manifest: ConcatManifest::new(),
                        outcome: Some(Err(ExportError::ToolNotFound)),
                        history: Ghost(Seq::empty()),
                        reported: Ghost(Seq::empty()),
                    };
                    (m, None)
                } else {
                    let a = Action::CreateWorkspace { dir: workspace_dir.clone() };
                    let ghost h: Seq<ActV> = seq![a@];
                    let m = ExportMachine {
                        phase: Phase::AcquiringWorkspace,
                        clips,
                        audio_path,
                        output_path,
                        tool_path,
                        workspace_dir,
                        manifest: ConcatManifest::new(),
                        outcome: None,
                        history: Ghost(h),
                        reported: Ghost(Seq::empty()),
                    };
                    (m, Some(a))
                }
            },
        }
    }

    /// Advances the run by one stage, given the application's report on the
    /// action last handed out. Returns the progress value now due (to be
    /// emitted first, fire-and-forget) and the next action, if any remains.
    pub fn step(&mut self, ev: Event) -> (r: StepOutput)
        requires
            old(self).wf(),
            !old(self).is_finished(),
        ensures
            final(self).wf(),
            step_post(*old(self), ev, *final(self), r),
    {
        let ghost pre = *self;
        match self.phase {
            Phase::AcquiringWorkspace => match ev {
                Event::Success => {
                    let a = self.trim_action(0);
                    self.phase = Phase::Trimming { index: 0 };
                    proof {
                        self.history = Ghost(self.history@.push(a@));
                        Self::lemma_same_core(pre, *self);
                        pre.lemma_trims_snoc(0);
                        assert(self.history@ =~= seq![self.create_act()] + self.trims_upto(1));
                        assert(self.entries_upto(0) =~= Seq::<Seq<char>>::empty());
                        assert(self.pvals_upto(0) =~= Seq::<u8>::empty());
                    }
                    StepOutput { progress: None, action: Some(a) }
                },
                Event::Failure => {
                    self.phase = Phase::Finished;
                    self.outcome = Some(Err(ExportError::WorkspaceCreateFailed));
                    proof {
                        Self::lemma_same_core(pre, *self);
                    }
                    StepOutput { progress: None, action: None }
                },
            },
            Phase::Trimming { index } => match ev {
                Event::Success => {
                    let total = self.clips.len();
                    proof {
                        assert(index < total);
                    }
                    let done = index + 1;
                    let p = trim_progress(done, total);
                    let dec = u64_to_dec(index as u64);
                    let mut name = String::from_str("clip_");
                    name.append(dec.as_str());
                    name.append(".ts");
                    let segment = join_path(self.workspace_dir.as_str(), name.as_str());
                    let entry = normalize_separators(segment.as_str());
                    self.manifest.push(entry);
                    proof {
                        self.reported = Ghost(self.reported@.push(p));
                        pre.lemma_entries_snoc(index as int);
                        pre.lemma_pvals_snoc(index as int);
                    }
                    if done < self.clips.len() {
                        let a = self.trim_action(done);
                        self.phase = Phase::Trimming { index: done };
                        proof {
                            self.history = Ghost(self.history@.push(a@));
                            Self::lemma_same_core(pre, *self);
                            pre.lemma_trims_snoc(done as int);
                            assert(self.history@ =~= seq![self.create_act()] + self.trims_upto(
                                done + 1,
                            ));
                        }
                        StepOutput { progress: Some(p), action: Some(a) }
                    } else {
                        let path = join_path(self.workspace_dir.as_str(), "concat.txt");
                        let content = self.manifest.render();
                        let a = Action::WriteManifest { path, content };
                        self.phase = Phase::WritingManifest;
                        proof {
                            self.history = Ghost(self.history@.push(a@));
                            Self::lemma_same_core(pre, *self);
                            pre.lemma_entries_snoc(index as int);
                            assert(self.manifest@ =~= self.entries_upto(self.n()));
                            assert(a@ == pre.wm_act());
                            assert(self.history@ =~= seq![self.create_act()] + self.trims_upto(
                                self.n(),
                            ) + seq![self.wm_act()]);
                        }
                        StepOutput { progress: Some(p), action: Some(a) }
                    }
                },
                Event::Failure => {
                    let a = self.remove_action();
                    self.phase = Phase::CleaningUp;
                    self.outcome = Some(Err(ExportError::TrimFailed { index }));
                    proof {
                        self.history = Ghost(self.history@.push(a@));
                        Self::lemma_same_core(pre, *self);
                        assert(self.history@ =~= seq![self.create_act()] + self.trims_upto(
                            index + 1,
                        ) + seq![self.remove_act()]);
                    }
                    StepOutput { progress: None, action: Some(a) }
                },
            },
            Phase::WritingManifest => match ev {
                Event::Success => {
                    let a = Action::EnsureOutputDir { output: self.output_path.clone() };
                    self.phase = Phase::EnsuringOutputDir;
                    proof {
                        self.history = Ghost(self.history@.push(a@));
                        Self::lemma_same_core(pre, *self);
                        assert(self.history@ =~= seq![self.create_act()] + self.trims_upto(self.n())
                            + seq![self.wm_act(), self.ensure_act()]);
                    }
                    StepOutput { progress: None, action: Some(a) }
                },
                Event::Failure => {
                    let a = self.remove_action();
                    self.phase = Phase::CleaningUp;
                    self.outcome = Some(Err(ExportError::ManifestWriteFailed));
                    proof {
                        self.history = Ghost(self.history@.push(a@));
                        Self::lemma_same_core(pre, *self);
                        assert(self.history@ =~= seq![self.create_act()] + self.trims_upto(self.n())
                            + seq![self.wm_act(), self.remove_act()]);
                    }
                    StepOutput { progress: None, action: Some(a) }
                },
            },
            Phase::EnsuringOutputDir => match ev {
                Event::Success => {
                    let manifest_file = join_path(self.workspace_dir.as_str(), "concat.txt");
                    let a = Action::RunMux {
                        tool: self.tool_path.clone(),
                        manifest: manifest_file,
                        audio: self.audio_path.clone(),
                        output: self.output_path.clone(),
                    };
                    self.phase = Phase::Muxing;
                    proof {
                        self.history = Ghost(self.history@.push(a@));
                        Self::lemma_same_core(pre, *self);
                        assert(self.history@ =~= self.full_hist());
                    }
                    StepOutput { progress: None, action: Some(a) }
                },
                Event::Failure => {
                    let a = self.remove_action();
                    self.phase = Phase::CleaningUp;
                    self.outcome = Some(Err(ExportError::OutputDirCreateFailed));
                    proof {
                        self.history = Ghost(self.history@.push(a@));
                        Self::lemma_same_core(pre, *self);
                        assert(self.history@ =~= seq![self.create_act()] + self.trims_upto(self.n())
                            + seq![self.wm_act(), self.ensure_act(), self.remove_act()]);
                    }
                    StepOutput { progress: None, action: Some(a) }
                },
            },
            Phase::Muxing => match ev {
                Event::Success => {
                    let a = self.remove_action();
                    self.phase = Phase::CleaningUp;
                    self.outcome = Some(Ok(self.output_path.clone()));
                    proof {
                        self.reported = Ghost(self.reported@.push(100u8));
                        self.history = Ghost(self.history@.push(a@));
                        Self::lemma_same_core(pre, *self);
                        assert(self.history@ =~= self.full_hist() + seq![self.remove_act()]);
                    }
                    StepOutput { progress: Some(100), action: Some(a) }
                },
                Event::Failure => {
                    let a = self.remove_action();
                    self.phase = Phase::CleaningUp;
                    self.outcome = Some(Err(ExportError::MuxFailed));
                    proof {
                        self.history = Ghost(self.history@.push(a@));
                        Self::lemma_same_core(pre, *self);
                        assert(self.history@ =~= self.full_hist() + seq![self.remove_act()]);
                    }
                    StepOutput { progress: None, action: Some(a) }
                },
            },
            Phase::CleaningUp => {
                self.phase = Phase::Finished;
                proof {
                    Self::lemma_same_core(pre, *self);
                }
                StepOutput { progress: None, action: None }
            },
            Phase::Finished => {
                proof {
                    assert(false);
                }
                StepOutput { progress: None, action: None }
            },
        }
    }

    /// Whether the run has reached its terminal state.
    pub fn finished(&self) -> (r: bool)
        ensures
            r == self.is_finished(),
    {
        match self.phase {
            Phase::Finished => true,
            _ => false,
        }
    }

    /// The run's result: the output path on success, the stage error
    /// otherwise.
    pub fn outcome(&self) -> (r: Result<String, ExportError>)
        requires
            self.wf(),
            self.is_finished(),
        ensures
            self.outcome matches Some(oc) && match (r, oc) {
                (Ok(a), Ok(b)) => a@ == b@,
                (Err(a), Err(b)) => a == b,
                _ => false,
            },
    {
        match &self.outcome {
            Some(Ok(p)) => Ok(p.clone()),
            Some(Err(e)) => Err(*e),
            None => {
                proof {
                    assert(false);
                }
                Err(ExportError::MuxFailed)
            },
        }
    }
}

/// A run that ended in success handed out exactly one trim per clip, in
/// input order, all after the workspace creation and all before the single
/// manifest write, the output-directory creation and the single mux; the
/// workspace removal came last; and the progress trace is the per-clip
/// values followed by exactly one final `100`.
pub proof fn lemma_success_trace(m: ExportMachine)
    requires
        m.wf(),
        m.is_finished(),
        m.outcome matches Some(Ok(_)),
    ensures
        m.history@.len() == m.n() + 5,
        m.history@[0] == m.create_act(),
        forall|j: int| 0 <= j < m.n() ==> m.history@[1 + j] == m.trim_act(j),
        m.history@[m.n() + 1] == m.wm_act(),
        m.history@[m.n() + 2] == m.ensure_act(),
        m.history@[m.n() + 3] == m.mux_act(),
        m.history@[m.n() + 4] == m.remove_act(),
        forall|k: int|
            0 <= k < m.history@.len() ==> ((#[trigger] m.history@[k]) is RunTrim <==> 1 <= k <= m.n()),
        forall|k: int|
            0 <= k < m.history@.len() ==> ((#[trigger] m.history@[k]) is RunMux <==> k == m.n() + 3),
        m.reported@ == m.pvals_upto(m.n()).push(100u8),
{
    let h = m.history@;
    let n = m.n();
    let f = m.full_hist();
    assert(h == f + seq![m.remove_act()]);
    assert(f.len() == n + 4);
    assert forall|k: int| 0 <= k < h.len() implies #[trigger] h[k] == if k == 0 {
        m.create_act()
    } else if k <= n {
        m.trim_act(k - 1)
    } else if k == n + 1 {
        m.wm_act()
    } else if k == n + 2 {
        m.ensure_act()
    } else if k == n + 3 {
        m.mux_act()
    } else {
        m.remove_act()
    } by {
        if k < f.len() {
            assert(h[k] == f[k]);
            if k == 0 {
                assert(f[k] == m.create_act());
            } else if k <= n {
                assert(f[k] == m.trims_upto(n)[k - 1]);
            }
        } else {
            assert(h[k] == seq![m.remove_act()][k - f.len()]);
        }
    }
}

/// Whenever the run got far enough to create its workspace (every outcome
/// but a rejected request, a missing tool, or the creation itself failing),
/// the very last action releases the workspace, and no other action does:
/// the workspace directory is gone when the run ends, whatever happened.
pub proof fn lemma_cleanup_exactly_once(m: ExportMachine)
    requires
        m.wf(),
        m.is_finished(),
        !(m.outcome matches Some(Err(ExportError::InvalidClipRange { .. }))),
        !(m.outcome matches Some(Err(ExportError::ToolNotFound))),
        !(m.outcome matches Some(Err(ExportError::WorkspaceCreateFailed))),
    ensures
        m.history@.len() >= 2,
        m.history@.last() == m.remove_act(),
        forall|k: int|
            0 <= k < m.history@.len() - 1 ==> !((#[trigger] m.history@[k]) is RemoveWorkspace),
{
    let h = m.history@;
    let n = m.n();
    let oc = m.outcome->Some_0;
    match oc {
        Ok(_) => {
            let f = m.full_hist();
            assert(h == f + seq![m.remove_act()]);
            assert(h.last() == seq![m.remove_act()][0]);
            assert forall|k: int| 0 <= k < h.len() - 1 implies !((#[trigger] h[k])
                is RemoveWorkspace) by {
                assert(h[k] == f[k]);
                if 1 <= k <= n {
                    assert(f[k] == m.trims_upto(n)[k - 1]);
                }
            }
        },
        Err(e) => match e {
            ExportError::TrimFailed { index } => {
                let p = seq![m.create_act()] + m.trims_upto(index + 1);
                assert(h == p + seq![m.remove_act()]);
                assert(h.last() == seq![m.remove_act()][0]);
                assert forall|k: int| 0 <= k < h.len() - 1 implies !((#[trigger] h[k])
                    is RemoveWorkspace) by {
                    assert(h[k] == p[k]);
                    if 1 <= k {
                        assert(p[k] == m.trims_upto(index + 1)[k - 1]);
                    }
                }
            },
            ExportError::ManifestWriteFailed => {
                let p = seq![m.create_act()] + m.trims_upto(n) + seq![m.wm_act()];
                assert(h == p + seq![m.remove_act()]);
                assert(h.last() == seq![m.remove_act()][0]);
                assert forall|k: int| 0 <= k < h.len() - 1 implies !((#[trigger] h[k])
                    is RemoveWorkspace) by {
                    assert(h[k] == p[k]);
                    if 1 <= k <= n {
                        assert(p[k] == m.trims_upto(n)[k - 1]);
                    }
                }
            },
            ExportError::OutputDirCreateFailed => {
                let p = seq![m.create_act()] + m.trims_upto(n) + seq![m.wm_act(), m.ensure_act()];
                assert(h == p + seq![m.remove_act()]);
                assert(h.last() == seq![m.remove_act()][0]);
                assert forall|k: int| 0 <= k < h.len() - 1 implies !((#[trigger] h[k])
                    is RemoveWorkspace) by {
                    assert(h[k] == p[k]);
                    if 1 <= k <= n {
                        assert(p[k] == m.trims_upto(n)[k - 1]);
                    }
                }
            },
            ExportError::MuxFailed => {
                let f = m.full_hist();
                assert(h == f + seq![m.remove_act()]);
                assert(h.last() == seq![m.remove_act()][0]);
                assert forall|k: int| 0 <= k < h.len() - 1 implies !((#[trigger] h[k])
                    is RemoveWorkspace) by {
                    assert(h[k] == f[k]);
                    if 1 <= k <= n {
                        assert(f[k] == m.trims_upto(n)[k - 1]);
                    }
                }
            },
            _ => {},
        },
    }
}

/// A request with an empty or reversed clip range is rejected before any
/// external process is spawned and before anything touches the file system:
/// the run hands out no action at all, and the reported index names the
/// first offending clip.
pub proof fn lemma_rejected_runs_nothing(m: ExportMachine)
    requires
        m.wf(),
        m.is_finished(),
        m.outcome matches Some(Err(ExportError::InvalidClipRange { .. })),
    ensures
        m.history@ == Seq::<ActV>::empty(),
        m.reported@ == Seq::<u8>::empty(),
        m.outcome matches Some(Err(ExportError::InvalidClipRange { index }))
            && ExportMachine::first_invalid_ok(m.clips@, index as int),
{
}

/// When the resolved transcoder path does not exist, the run returns at
/// once: no action is handed out, so no file-system write ever occurs.
pub proof fn lemma_missing_tool_runs_nothing(m: ExportMachine)
    requires
        m.wf(),
        m.is_finished(),
        m.outcome matches Some(Err(ExportError::ToolNotFound)),
    ensures
        m.history@ == Seq::<ActV>::empty(),
        m.reported@ == Seq::<u8>::empty(),
{
}

/// When trimming clip `index` failed, the run aborted at once: every clip
/// before it was trimmed in order, no manifest was written, no mux was
/// attempted, and the workspace was still released as the final action.
pub proof fn lemma_trim_failure_aborts(m: ExportMachine)
    requires
        m.wf(),
        m.is_finished(),
        m.outcome matches Some(Err(ExportError::TrimFailed { .. })),
    ensures
        m.outcome matches Some(Err(ExportError::TrimFailed { index })) && {
            &&& index < m.n()
            &&& m.history@.len() == index + 3
            &&& m.history@[0] == m.create_act()
            &&& forall|j: int| 0 <= j <= index ==> m.history@[1 + j] == m.trim_act(j)
            &&& m.history@.last() == m.remove_act()
            &&& forall|k: int|
                0 <= k < m.history@.len() ==> !((#[trigger] m.history@[k]) is WriteManifest)
                    && !((#[trigger] m.history@[k]) is RunMux)
        },
{
    let h = m.history@;
    if let Some(Err(ExportError::TrimFailed { index })) = m.outcome {
        let p = seq![m.create_act()] + m.trims_upto(index + 1);
        assert(h == p + seq![m.remove_act()]);
        assert(h.last() == seq![m.remove_act()][0]);
        assert forall|j: int| 0 <= j <= index implies h[1 + j] == m.trim_act(j) by {
            assert(h[1 + j] == p[1 + j]);
            assert(p[1 + j] == m.trims_upto(index + 1)[j]);
        }
        assert forall|k: int| 0 <= k < h.len() implies !((#[trigger] h[k]) is WriteManifest) && !(
        (#[trigger] h[k]) is RunMux) by {
            if k < p.len() {
                assert(h[k] == p[k]);
                if 1 <= k {
                    assert(p[k] == m.trims_upto(index + 1)[k - 1]);
                }
            } else {
                assert(h[k] == seq![m.remove_act()][k - p.len()]);
            }
        }
    }
}

/// What one clip selection contributes to a run, as a mathematical value.
pub ghost struct ClipView {
    pub source: Seq<char>,
    pub start_ms: u64,
    pub end_ms: u64,
}

/// The clip sequence as mathematical values.
pub open spec fn clip_views(clips: Seq<ClipSelection>) -> Seq<ClipView> {
    Seq::new(
        clips.len(),
        |i: int|
            ClipView {
                source: clips[i].source_path@,
                start_ms: clips[i].start_ms,
                end_ms: clips[i].end_ms,
            },
    )
}

/// Everything observable about a run, as mathematical values: the inputs it
/// was created from, where it stands, what it has decided, and the traces
/// of actions and progress values it has handed out. (The manifest
/// accumulator is omitted: what gets written is already pinned by the
/// trace.)
pub ghost struct RunView {
    pub phase: Phase,
    pub clips: Seq<ClipView>,
    pub audio: Seq<char>,
    pub output: Seq<char>,
    pub tool: Seq<char>,
    pub workspace: Seq<char>,
    pub outcome: Option<Result<Seq<char>, ExportError>>,
    pub history: Seq<ActV>,
    pub reported: Seq<u8>,
}

impl ExportMachine {
    pub open spec fn run_view(self) -> RunView {
        RunView {
            phase: self.phase,
            clips: clip_views(self.clips@),
            audio: self.audio_path@,
            output: self.output_path@,
            tool: self.tool_path@,
            workspace: self.workspace_dir@,
            outcome: match self.outcome {
                None => None,
                Some(Ok(p)) => Some(Ok(p@)),
                Some(Err(e)) => Some(Err(e)),
            },
            history: self.history@,
            reported: self.reported@,
        }
    }

    /// Two machines whose creation-time inputs agree as values agree on
    /// every expected-trace building block within the clip range.
    proof fn lemma_same_view_core(a: ExportMachine, b: ExportMachine)
        requires
            clip_views(a.clips@) == clip_views(b.clips@),
            a.audio_path@ == b.audio_path@,
            a.output_path@ == b.output_path@,
            a.tool_path@ == b.tool_path@,
            a.workspace_dir@ == b.workspace_dir@,
        ensures
            a.n() == b.n(),
            forall|j: int| 0 <= j < a.n() ==> #[trigger] a.trim_act(j) == b.trim_act(j),
            forall|k: int|
                #![trigger a.trims_upto(k)]
                #![trigger b.trims_upto(k)]
                0 <= k <= a.n() ==> a.trims_upto(k) == b.trims_upto(k),
            forall|k: int|
                #![trigger a.entries_upto(k)]
                #![trigger b.entries_upto(k)]
                0 <= k ==> a.entries_upto(k) == b.entries_upto(k),
            forall|k: int|
                #![trigger a.pvals_upto(k)]
                #![trigger b.pvals_upto(k)]
                0 <= k ==> a.pvals_upto(k) == b.pvals_upto(k),
            a.create_act() == b.create_act(),
            a.wm_act() == b.wm_act(),
            a.ensure_act() == b.ensure_act(),
            a.mux_act() == b.mux_act(),
            a.remove_act() == b.remove_act(),
            a.full_hist() == b.full_hist(),
    {
        assert(clip_views(a.clips@).len() == a.clips@.len());
        assert(clip_views(b.clips@).len() == b.clips@.len());
        assert forall|j: int| 0 <= j < a.n() implies #[trigger] a.trim_act(j) == b.trim_act(j) by {
            assert(clip_views(a.clips@)[j] == clip_views(b.clips@)[j]);
            assert(clip_views(a.clips@)[j].source == a.clips@[j].source_path@);
            assert(clip_views(b.clips@)[j].source == b.clips@[j].source_path@);
            assert(a.clips@[j].source_path@ == b.clips@[j].source_path@);
            assert(a.clips@[j].start_ms == b.clips@[j].start_ms);
            assert(a.clips@[j].end_ms == b.clips@[j].end_ms);
        }
        assert forall|k: int| 0 <= k <= a.n() implies #[trigger] a.trims_upto(k) == b.trims_upto(
            k,
        ) by {
            assert forall|j: int| 0 <= j < k implies a.trims_upto(k)[j] == b.trims_upto(k)[j] by {
                assert(clip_views(a.clips@)[j] == clip_views(b.clips@)[j]);
            }
            assert(a.trims_upto(k) =~= b.trims_upto(k));
        }
        assert forall|k: int| 0 <= k implies #[trigger] a.entries_upto(k) == b.entries_upto(k) by {
            assert(a.entries_upto(k) =~= b.entries_upto(k));
        }
        assert forall|k: int| 0 <= k implies #[trigger] a.pvals_upto(k) == b.pvals_upto(k) by {
            assert(a.pvals_upto(k) =~= b.pvals_upto(k));
        }
        assert(a.entries_upto(a.n()) == b.entries_upto(b.n()));
        assert(a.trims_upto(a.n()) == b.trims_upto(b.n()));
        assert(a.full_hist() =~= b.full_hist());
    }
}

/// Two runs whose observable state agrees and which receive the same event
/// report take the same decision: the machines' observable states still
/// agree afterwards, the same progress value (if any) is emitted, and the
/// same action (if any), as a value, is handed out. Together with `start`'s
/// exact postcondition this makes a run's classification a function of the
/// request and the event reports alone; identical requests driven by
/// identical reports classify identically.
pub proof fn lemma_step_deterministic(
    pre1: ExportMachine,
    post1: ExportMachine,
    r1: StepOutput,
    pre2: ExportMachine,
    post2: ExportMachine,
    r2: StepOutput,
    ev: Event,
)
    requires
        pre1.wf(),
        pre2.wf(),
        !pre1.is_finished(),
        pre1.run_view() == pre2.run_view(),
        step_post(pre1, ev, post1, r1),
        step_post(pre2, ev, post2, r2),
    ensures
        post1.run_view() == post2.run_view(),
        r1.progress == r2.progress,
        match (r1.action, r2.action) {
            (Some(a1), Some(a2)) => a1@ == a2@,
            (None, None) => true,
            _ => false,
        },
{
    ExportMachine::lemma_same_view_core(pre1, pre2);
    ExportMachine::lemma_same_view_core(post1, pre1);
    ExportMachine::lemma_same_view_core(post2, pre2);
    assert(pre1.phase == pre2.phase);
    match pre1.phase {
        Phase::Trimming { index } => {
            assert(index < pre1.n());
            if ev is Success && index + 1 < pre1.n() {
                assert(post1.trim_act(index + 1) == post2.trim_act(index + 1));
            }
        },
        _ => {},
    }
    assert(post1.run_view() == post2.run_view());
}

/// Every trim-stage progress value lies in `0..=50`.
proof fn lemma_pvals_bounded(m: ExportMachine, k: int)
    requires
        0 <= k <= m.n(),
    ensures
        forall|j: int|
            0 <= j < k ==> 0 <= (#[trigger] m.pvals_upto(k)[j]) <= 50 && m.pvals_upto(k)[j]
                == trim_progress_spec(j + 1, m.n()),
{
    assert forall|j: int| 0 <= j < k implies 0 <= (#[trigger] m.pvals_upto(k)[j]) <= 50
        && m.pvals_upto(k)[j] == trim_progress_spec(j + 1, m.n()) by {
        lemma_trim_progress_nonneg(j + 1, m.n());
        lemma_trim_progress_le_50(j + 1, m.n());
    }
}

/// Progress is emitted non-decreasing; every value during trimming is at
/// most 50; and `100` appears exactly once, as the final value, exactly
/// when the run succeeded.
pub proof fn lemma_progress_monotone(m: ExportMachine)
    requires
        m.wf(),
        m.is_finished(),
    ensures
        forall|i: int, j: int|
            0 <= i <= j < m.reported@.len() ==> #[trigger] m.reported@[i] <= #[trigger] m.reported@[j],
        m.outcome matches Some(Ok(_)) ==> {
            &&& m.reported@.len() == m.n() + 1
            &&& m.reported@.last() == 100u8
            &&& forall|i: int| 0 <= i < m.reported@.len() - 1 ==> #[trigger] m.reported@[i] <= 50
        },
        m.outcome matches Some(Err(_)) ==> forall|i: int|
            0 <= i < m.reported@.len() ==> #[trigger] m.reported@[i] <= 50,
{
    let n = m.n();
    let oc = m.outcome->Some_0;
    match oc {
        Ok(_) => {
            lemma_pvals_bounded(m, n);
            assert(m.reported@ == m.pvals_upto(n).push(100u8));
            assert forall|i: int, j: int| 0 <= i <= j < m.reported@.len() implies #[trigger] m.reported@[i]
                <= #[trigger] m.reported@[j] by {
                if j < n {
                    lemma_trim_progress_monotone(i + 1, j + 1, n);
                } else if i < n {
                    assert(m.reported@[i] == m.pvals_upto(n)[i]);
                    assert(m.reported@[j] == 100u8);
                }
            }
        },
        Err(e) => {
            let k: int = match e {
                ExportError::TrimFailed { index } => index as int,
                ExportError::InvalidClipRange { .. } => 0,
                ExportError::ToolNotFound => 0,
                ExportError::WorkspaceCreateFailed => 0,
                _ => n,
            };
            assert(m.pvals_upto(0) =~= Seq::<u8>::empty());
            assert(m.reported@ == m.pvals_upto(k));
            lemma_pvals_bounded(m, k);
            assert forall|i: int, j: int| 0 <= i <= j < m.reported@.len() implies #[trigger] m.reported@[i]
                <= #[trigger] m.reported@[j] by {
                lemma_trim_progress_monotone(i + 1, j + 1, n);
            }
        },
    }
}

/// For runs of at most 99 clips every emitted progress value is strictly
/// positive. (From 100 clips on, the value after the first trim rounds to
/// zero, so the bound on the clip count is as tight as the policy allows.)
pub proof fn lemma_progress_positive(m: ExportMachine)
    requires
        m.wf(),
        m.is_finished(),
        m.n() <= 99,
    ensures
        forall|i: int| 0 <= i < m.reported@.len() ==> #[trigger] m.reported@[i] > 0,
{
    let n = m.n();
    let oc = m.outcome->Some_0;
    assert forall|i: int| 0 <= i < m.reported@.len() implies #[trigger] m.reported@[i] > 0 by {
        match oc {
            Ok(_) => {
                assert(m.reported@ == m.pvals_upto(n).push(100u8));
                if i < n {
                    assert(m.reported@[i] == m.pvals_upto(n)[i]);
                    lemma_trim_progress_le_50(i + 1, n);
                    lemma_trim_progress_positive(i + 1, n);
                }
            },
            Err(e) => {
                let k: int = match e {
                    ExportError::TrimFailed { index } => index as int,
                    ExportError::InvalidClipRange { .. } => 0,
                    ExportError::ToolNotFound => 0,
                    ExportError::WorkspaceCreateFailed => 0,
                    _ => n,
                };
                assert(m.pvals_upto(0) =~= Seq::<u8>::empty());
                assert(m.reported@ == m.pvals_upto(k));
                assert(m.reported@[i] == m.pvals_upto(k)[i]);
                lemma_trim_progress_le_50(i + 1, n);
                lemma_trim_progress_positive(i + 1, n);
            },
        }
    }
}

/// No segment path the machine puts into the manifest holds a newline, as
/// long as the workspace path holds none.
proof fn lemma_entry_no_newline(m: ExportMachine, j: int)
    requires
        0 <= j,
        forall|i: int| 0 <= i < m.workspace_dir@.len() ==> m.workspace_dir@[i] != '\n',
    ensures
        forall|i: int|
            0 <= i < m.entries_upto(j + 1)[j].len() ==> #[trigger] m.entries_upto(j + 1)[j][i]
                != '\n',
{
    let seg = join_spec(m.workspace_dir@, seg_name_spec(j as nat));
    reveal_strlit("/");
    reveal_strlit("clip_");
    reveal_strlit(".ts");
    crate::text::lemma_dec_no_newline(j as nat);
    assert forall|i: int| 0 <= i < seg.len() implies seg[i] != '\n' by {
        let ws = m.workspace_dir@;
        let name = seg_name_spec(j as nat);
        if i < ws.len() {
            assert(seg[i] == ws[i]);
        } else if i < ws.len() + 1 {
            assert(seg[i] == "/"@[0]);
        } else {
            let q = i - ws.len() - 1;
            assert(seg[i] == name[q]);
            let head = "clip_"@;
            let digits = dec_spec(j as nat);
            if q < head.len() {
                assert(name[q] == head[q]);
                if q == 0 {
                } else if q == 1 {
                } else if q == 2 {
                } else if q == 3 {
                } else {
                    assert(q == 4);
                }
            } else if q < head.len() + digits.len() {
                assert(name[q] == digits[q - head.len()]);
            } else {
                let t = q - head.len() - digits.len();
                assert(name[q] == ".ts"@[t]);
                if t == 0 {
                } else if t == 1 {
                } else {
                    assert(t == 2);
                }
            }
        }
    }
    crate::text::lemma_normalize_no_newline(seg);
    assert(m.entries_upto(j + 1)[j] == normalize_spec(seg));
}

/// The manifest text the machine writes holds exactly one line per clip,
/// and the lines stand in clip order (each rendering step appends exactly
/// the record of the next clip's segment path), as long as the workspace
/// path holds no newline.
pub proof fn lemma_manifest_line_count(m: ExportMachine, k: int)
    requires
        0 <= k,
        forall|i: int| 0 <= i < m.workspace_dir@.len() ==> m.workspace_dir@[i] != '\n',
    ensures
        count_newlines(render_spec(m.entries_upto(k))) == k,
        forall|j: int|
            0 <= j < k ==> render_spec(m.entries_upto(k).take(j + 1)) == render_spec(
                m.entries_upto(k).take(j),
            ) + crate::manifest::line_spec(m.entries_upto(k)[j]),
{
    let entries = m.entries_upto(k);
    assert forall|j: int, i: int|
        0 <= j < entries.len() && 0 <= i < entries[j].len() implies entries[j][i] != '\n' by {
        lemma_entry_no_newline(m, j);
        assert(entries[j] == m.entries_upto(j + 1)[j]);
    }
    crate::manifest::lemma_render_line_count(entries);
    assert forall|j: int| 0 <= j < k implies render_spec(entries.take(j + 1)) == render_spec(
        entries.take(j),
    ) + crate::manifest::line_spec(entries[j]) by {
        crate::manifest::lemma_render_step(entries, j);
    }
}

} // verus!
