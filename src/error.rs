//! Errors that the synthesizers and the session supervisor report.
use vstd::prelude::*;

verus! {

/// A request that cannot be turned into an engine invocation; reported
/// before any process is spawned.
#[derive(Debug, Clone, PartialEq, Eq)]
pub enum ValidationError {
    /// The resolution tier has a name that is not in the table.
    InvalidResolution(String),
    /// The `source` tier was asked for a capture without the source's size.
    SourceResolutionUnavailable,
    /// A time range whose end is not after its start.
    InvalidTimeRange,
    /// A concatenation without any clip.
    NoClips,
    /// A composite export without any track.
    NoTracks,
    /// A picture-in-picture overlay with an empty duration or a volume above one.
    InvalidOverlay,
    /// A track whose opacity or volume lies above one.
    InvalidTrack,
    /// A canvas whose width or height is not positive.
    InvalidCanvas,
    /// The capture backends know no arguments for this platform.
    UnsupportedPlatform,
}

/// A start or stop that conflicts with the state of a capture kind.
#[derive(Debug, Clone, Copy, PartialEq, Eq)]
pub enum SupervisorError {
    /// A session of this kind is already running.
    AlreadyRunning,
    /// No session of this kind is running.
    NoProcess,
}

/// Whether `e` reports the unknown tier name `name`.
pub open spec fn reports_invalid_resolution(e: ValidationError, name: Seq<char>) -> bool {
    match e {
        ValidationError::InvalidResolution(s) => s@ == name,
        _ => false,
    }
}

} // verus!
