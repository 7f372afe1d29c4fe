//! Error kinds reported by the plotting core.

use vstd::prelude::*;

verus! {

/// Everything that can stop a plotting run before or during work.
///
/// Configuration and precondition problems are reported before any work
/// starts; `IoFailed` is the writer's fatal path; `AffinityUnavailable` is
/// non-fatal and only logged by callers.
#[derive(Clone, Copy, Debug, PartialEq, Eq, Structural)]
pub enum PlotError {
    /// The memory string does not parse, or the flags contradict each other,
    /// or sector alignment leaves no nonce to plot.
    ConfigInvalid,
    /// The target directory does not exist.
    PathMissing,
    /// The target device lacks room for the plot file.
    DiskFull,
    /// The host cannot hold the GPU staging area plus one buffer unit.
    HostMemInsufficient,
    /// A resume sidecar is absent or unreadable while the plot file exists.
    AlreadyCompleted,
    /// A positioned write or flush failed.
    IoFailed,
    /// A worker could not be pinned to a core.
    AffinityUnavailable,
}

impl PlotError {
    /// Short machine-parseable kind tag for one-line diagnostics.
    pub fn kind_name(&self) -> (r: &'static str)
        ensures
            r@ == match self {
                PlotError::ConfigInvalid => "ConfigInvalid"@,
                PlotError::PathMissing => "PathMissing"@,
                PlotError::DiskFull => "DiskFull"@,
                PlotError::HostMemInsufficient => "HostMemInsufficient"@,
                PlotError::AlreadyCompleted => "AlreadyCompleted"@,
                PlotError::IoFailed => "IoFailed"@,
                PlotError::AffinityUnavailable => "AffinityUnavailable"@,
            },
    {
        match self {
            PlotError::ConfigInvalid => "ConfigInvalid",
            PlotError::PathMissing => "PathMissing",
            PlotError::DiskFull => "DiskFull",
            PlotError::HostMemInsufficient => "HostMemInsufficient",
            PlotError::AlreadyCompleted => "AlreadyCompleted",
            PlotError::IoFailed => "IoFailed",
            PlotError::AffinityUnavailable => "AffinityUnavailable",
        }
    }
}

} // verus!
