//! The error taxonomy of the export pipeline: one tagged variant per stage,
//! carrying the clip index where one is needed for diagnostics, and a single
//! human-readable message per value.

use crate::text::dec_spec;
use crate::text::u64_to_dec;
use vstd::prelude::*;
use vstd::string::*;

verus! {

/// Why an export run failed; every stage failure is fatal to the run.
#[derive(Clone, Copy, Debug, PartialEq, Eq, Structural)]
pub enum ExportError {
    /// The external transcoder binary is absent from its resolved path.
    ToolNotFound,
    /// Clip `index` has `end_ms <= start_ms` (or the clip list is empty).
    InvalidClipRange { index: usize },
    /// The scratch workspace directory could not be created.
    WorkspaceCreateFailed,
    /// The transcoder exited with an error while trimming clip `index`.
    TrimFailed { index: usize },
    /// The concat manifest file could not be written.
    ManifestWriteFailed,
    /// The final concat-and-mux invocation exited with an error.
    MuxFailed,
    /// The output file's parent directory could not be created.
    OutputDirCreateFailed,
}

/// The one message each error maps to.
pub open spec fn message_spec(e: ExportError) -> Seq<char> {
    match e {
        ExportError::ToolNotFound => "external transcoder binary not found"@,
        ExportError::InvalidClipRange { index } => "clip "@ + dec_spec(index as nat)
            + " has an empty or reversed time range"@,
        ExportError::WorkspaceCreateFailed => "could not create the scratch workspace directory"@,
        ExportError::TrimFailed { index } => "trimming failed for clip "@ + dec_spec(index as nat),
        ExportError::ManifestWriteFailed => "could not write the concat manifest"@,
        ExportError::MuxFailed => "final concatenation and audio mux failed"@,
        ExportError::OutputDirCreateFailed => "could not create the output directory"@,
    }
}

impl ExportError {
    /// The human-readable description returned to the caller.
    pub fn message(&self) -> (r: String)
        ensures
            r@ == message_spec(*self),
    {
        match *self {
            ExportError::ToolNotFound => String::from_str("external transcoder binary not found"),
            ExportError::InvalidClipRange { index } => {
                let mut r = String::from_str("clip ");
                let d = u64_to_dec(index as u64);
                r.append(d.as_str());
                r.append(" has an empty or reversed time range");
                r
            },
            ExportError::WorkspaceCreateFailed => String::from_str(
                "could not create the scratch workspace directory",
            ),
            ExportError::TrimFailed { index } => {
                let mut r = String::from_str("trimming failed for clip ");
                let d = u64_to_dec(index as u64);
                r.append(d.as_str());
                r
            },
            ExportError::ManifestWriteFailed => String::from_str(
                "could not write the concat manifest",
            ),
            ExportError::MuxFailed => String::from_str("final concatenation and audio mux failed"),
            ExportError::OutputDirCreateFailed => String::from_str(
                "could not create the output directory",
            ),
        }
    }
}

} // verus!
