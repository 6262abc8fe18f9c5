//! Clip selections and export requests: the validated input of the pipeline.
//!
//! Times are carried as whole milliseconds; a selection is valid when its end
//! lies strictly after its start, so the derived duration is positive.

use vstd::prelude::*;

verus! {

/// One selected segment of a source media file: the interval
/// `[start_ms, end_ms)` of the file at `source_path`.
pub struct ClipSelection {
    pub source_path: String,
    pub start_ms: u64,
    pub end_ms: u64,
}

impl ClipSelection {
    /// A selection is valid when the end lies strictly after the start.
    pub open spec fn valid(&self) -> bool {
        self.start_ms < self.end_ms
    }

    /// Derived length of the selection in milliseconds; positive when valid.
    pub open spec fn spec_duration_ms(&self) -> int {
        self.end_ms - self.start_ms
    }

    pub fn duration_ms(&self) -> (d: u64)
        requires
            self.valid(),
        ensures
            d == self.spec_duration_ms(),
            d > 0,
    {
        self.end_ms - self.start_ms
    }
}

/// Everything one export run consumes: the ordered clips, the audio track to
/// lay under the concatenated video, and the path of the final output file.
pub struct ExportRequest {
    pub clips: Vec<ClipSelection>,
    pub audio_path: String,
    pub output_path: String,
}

/// All clips of the sequence are valid and there is at least one.
pub open spec fn clips_valid(clips: Seq<ClipSelection>) -> bool {
    &&& clips.len() > 0
    &&& forall|i: int| 0 <= i < clips.len() ==> (#[trigger] clips[i]).valid()
}

impl ExportRequest {
    pub open spec fn valid(&self) -> bool {
        clips_valid(self.clips@)
    }

    /// Index of the first invalid clip, when the request is rejected:
    /// `None` exactly when the request is valid.
    pub fn first_invalid_clip(&self) -> (r: Option<usize>)
        ensures
            match r {
                None => self.valid(),
                Some(i) => {
                    &&& !self.valid()
                    &&& if self.clips@.len() == 0 {
                        i == 0
                    } else {
                        &&& i < self.clips@.len()
                        &&& !self.clips@[i as int].valid()
                        &&& forall|j: int| 0 <= j < i ==> (#[trigger] self.clips@[j]).valid()
                    }
                },
            },
    {
        if self.clips.len() == 0 {
            return Some(0);
        }
        let mut i: usize = 0;
        while i < self.clips.len()
            invariant
                i <= self.clips@.len(),
                forall|j: int| 0 <= j < i ==> (#[trigger] self.clips@[j]).valid(),
            decreases self.clips@.len() - i,
        {
            if self.clips[i].start_ms >= self.clips[i].end_ms {
                return Some(i);
            }
            i = i + 1;
        }
        None
    }
}

} // verus!
