//! The comparison policy: given the configured strategy and what is known of
//! the destination file, decide whether the source file is copied, skipped,
//! or refused.

use vstd::prelude::*;

verus! {

/// Which factor decides whether an existing destination file is overwritten.
#[derive(Clone, Copy, Debug, PartialEq, Eq, Structural)]
pub enum Comparison {
    /// Always overwrite, whether the destination exists or not.
    Off,
    /// Skip whenever the destination exists, regardless of content.
    Exists,
    /// Compare modification timestamps: equal means skip.
    Date,
}

/// What the policy decided for one file.
#[derive(Clone, Copy, Debug, PartialEq, Eq, Structural)]
pub enum Decision {
    /// Replace the destination with the source bytes.
    Overwrite,
    /// Leave the destination as it is; no bytes are read or written.
    Skip,
    /// Refuse to touch a read-only destination; the file is reported failed.
    Abort,
}

/// What the copier observed of an existing destination file. A modification
/// time that could not be read is `None` and never counts as equal.
#[derive(Clone, Copy, Debug)]
pub struct DestMeta {
    pub mtime: Option<i64>,
    pub readonly: bool,
}

/// The policy itself. A missing destination is always written. Otherwise
/// `None` overwrites, `Exists` skips, and `Date` skips exactly when both
/// modification times are known and equal, refuses a read-only destination
/// whose time differs, and overwrites the rest.
pub open spec fn decision_of(
    strategy: Comparison,
    dest: Option<DestMeta>,
    src_mtime: Option<i64>,
) -> Decision {
    match dest {
        Option::None => Decision::Overwrite,
        Option::Some(meta) => match strategy {
            Comparison::Off => Decision::Overwrite,
            Comparison::Exists => Decision::Skip,
            Comparison::Date => {
                if meta.mtime is Some && src_mtime is Some && meta.mtime == src_mtime {
                    Decision::Skip
                } else if meta.readonly {
                    Decision::Abort
                } else {
                    Decision::Overwrite
                }
            },
        },
    }
}

/// Decide what happens to one file: `dest` is the metadata of the destination
/// file if it exists, `src_mtime` the source's modification time if it could
/// be read.
pub fn decide(strategy: Comparison, dest: Option<DestMeta>, src_mtime: Option<i64>) -> (d:
    Decision)
    ensures
        d == decision_of(strategy, dest, src_mtime),
{
    match dest {
        Option::None => Decision::Overwrite,
        Option::Some(meta) => match strategy {
            Comparison::Off => Decision::Overwrite,
            Comparison::Exists => Decision::Skip,
            Comparison::Date => {
                let equal = match (meta.mtime, src_mtime) {
                    (Option::Some(d), Option::Some(s)) => d == s,
                    _ => false,
                };
                if equal {
                    Decision::Skip
                } else if meta.readonly {
                    Decision::Abort
                } else {
                    Decision::Overwrite
                }
            },
        },
    }
}

} // verus!
