//! The immutable configuration of one run, and the worker-pool sizing that
//! the engine entry point derives from it.

use vstd::prelude::*;
use crate::policy::Comparison;

verus! {

/// A fatal error found before any filesystem work starts. Per-file failures
/// are never reported this way: they are confined to their file.
#[derive(Clone, Copy, Debug, PartialEq, Eq, Structural)]
pub enum ConfigError {
    /// The requested worker count is zero.
    InvalidThreadCount,
    /// The worker pool could not be constructed.
    PoolConstruction,
}

/// The configuration of one run. It is created once per top-level call and
/// never mutated afterwards, so every worker may read it freely.
#[derive(Clone, Copy, Debug)]
pub struct CopyConfig {
    /// Worker threads to use; unset means the logical CPU count.
    pub thread_count: Option<usize>,
    /// Whether a symlink is resolved and walked, or ignored.
    pub follow_symlinks: bool,
    /// Which factor decides whether an existing destination file is rewritten.
    pub comparison: Comparison,
    /// Whether a copied file also receives the source's timestamps.
    pub preserve_metadata: bool,
}

impl Default for CopyConfig {
    /// The defaults of the engine: CPU-count workers, symlinks ignored,
    /// timestamps compared, metadata preserved.
    fn default() -> (c: Self)
        ensures
            c.thread_count is None,
            !c.follow_symlinks,
            c.comparison == Comparison::Date,
            c.preserve_metadata,
    {
        CopyConfig {
            thread_count: None,
            follow_symlinks: false,
            comparison: Comparison::Date,
            preserve_metadata: true,
        }
    }
}

/// Relies on num_cpus::get: the number of logical CPUs of this machine,
/// documented to be at least one.
#[verifier::external_body]
fn logical_cpu_count() -> (n: usize)
    ensures
        n >= 1,
{
    num_cpus::get()
}

/// The number of worker threads a run uses: the requested count, or the
/// logical CPU count when none was requested.
pub fn effective_thread_count(requested: Option<usize>) -> (n: usize)
    ensures
        requested matches Some(t) ==> n == t,
        requested is None ==> n >= 1,
{
    match requested {
        Some(t) => t,
        None => logical_cpu_count(),
    }
}

} // verus!
