//! Per-file results: what one copy task reports, how an I/O failure is
//! classified, and the aggregated summary of a whole run.

use vstd::prelude::*;

verus! {

/// Why a file was left alone.
#[derive(Clone, Copy, Debug, PartialEq, Eq, Structural)]
pub enum SkipReason {
    /// The destination exists and the strategy skips everything that exists.
    DestinationExists,
    /// The destination's modification time equals the source's.
    UpToDate,
}

/// How the copy of one file failed. Every variant is confined to its file:
/// siblings and ancestors continue normally.
#[derive(Clone, Copy, Debug, PartialEq, Eq, Structural)]
pub enum FileCopyError {
    /// The platform refused access to the source or the destination.
    PermissionDenied,
    /// Another writer created the destination first.
    AlreadyExists,
    /// The destination is read-only and its modification time differs.
    ReadOnlyTarget,
    /// Any other I/O failure.
    Other,
}

/// The result of one file task.
#[derive(Clone, Copy, Debug, PartialEq, Eq, Structural)]
pub enum CopyOutcome {
    /// The source's bytes were written to the destination.
    Copied,
    /// Nothing was read or written.
    Skipped(SkipReason),
    /// The copy was refused or failed; the run as a whole continues.
    Failed(FileCopyError),
}

/// The kinds of I/O failure that the copier tells apart when writing a file.
#[derive(Clone, Copy, Debug, PartialEq, Eq, Structural)]
pub enum IoErrorKind {
    PermissionDenied,
    AlreadyExists,
    Other,
}

/// Classify a failed write: which outcome a file task reports when the
/// byte copy itself failed with the given kind of I/O error.
pub fn failure_outcome(kind: IoErrorKind) -> (o: CopyOutcome)
    ensures
        kind == IoErrorKind::PermissionDenied ==> o == CopyOutcome::Failed(
            FileCopyError::PermissionDenied,
        ),
        kind == IoErrorKind::AlreadyExists ==> o == CopyOutcome::Failed(
            FileCopyError::AlreadyExists,
        ),
        kind == IoErrorKind::Other ==> o == CopyOutcome::Failed(FileCopyError::Other),
{
    match kind {
        IoErrorKind::PermissionDenied => CopyOutcome::Failed(FileCopyError::PermissionDenied),
        IoErrorKind::AlreadyExists => CopyOutcome::Failed(FileCopyError::AlreadyExists),
        IoErrorKind::Other => CopyOutcome::Failed(FileCopyError::Other),
    }
}

/// Counts of per-file outcomes over one run, so that a caller can detect
/// partial failure without reading log output.
#[derive(Clone, Copy, Debug, PartialEq, Eq, Structural)]
pub struct CopySummary {
    pub copied: usize,
    pub skipped: usize,
    pub failed: usize,
}

impl CopySummary {
    /// An empty summary: nothing recorded yet.
    pub fn new() -> (s: Self)
        ensures
            s.copied == 0,
            s.skipped == 0,
            s.failed == 0,
    {
        CopySummary { copied: 0, skipped: 0, failed: 0 }
    }

    /// Record one file's outcome in the matching counter.
    pub fn record(&mut self, outcome: CopyOutcome)
        requires
            outcome is Copied ==> old(self).copied < usize::MAX,
            outcome is Skipped ==> old(self).skipped < usize::MAX,
            outcome is Failed ==> old(self).failed < usize::MAX,
        ensures
            final(self).copied == old(self).copied + if outcome is Copied {
                1int
            } else {
                0int
            },
            final(self).skipped == old(self).skipped + if outcome is Skipped {
                1int
            } else {
                0int
            },
            final(self).failed == old(self).failed + if outcome is Failed {
                1int
            } else {
                0int
            },
    {
        match outcome {
            CopyOutcome::Copied => {
                self.copied = self.copied + 1;
            },
            CopyOutcome::Skipped(_) => {
                self.skipped = self.skipped + 1;
            },
            CopyOutcome::Failed(_) => {
                self.failed = self.failed + 1;
            },
        }
    }

    /// How many files were looked at in all.
    pub fn total(&self) -> (n: usize)
        requires
            self.copied + self.skipped + self.failed <= usize::MAX,
        ensures
            n == self.copied + self.skipped + self.failed,
    {
        self.copied + self.skipped + self.failed
    }
}

} // verus!
