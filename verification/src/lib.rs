//! Verified core of a clip-export pipeline: an orchestrator that trims a
//! sequence of clip selections with an external transcoder, concatenates the
//! trimmed segments via a manifest, muxes in an audio track, reports progress,
//! and guarantees cleanup of its scratch directory on every path.
//!
//! All file-system and subprocess work is performed by the embedding
//! application; this crate decides, step by step, which action comes next and
//! proves the ordering, progress and cleanup guarantees of those decisions.

pub mod clip;
pub mod error;
pub mod machine;
pub mod manifest;
pub mod progress;
pub mod text;
pub mod transcoder;
pub mod thumbnail;
