//! A parallel directory replication engine.
//!
//! The library holds the decision logic of the copier: which entries of a
//! source tree are walked, which files are overwritten, skipped or refused,
//! and what a run leaves behind in the destination tree. The filesystem
//! itself, the worker pool and the command line stand outside, in the
//! binary crate, which consults these functions for every decision.

use vstd::prelude::*;

pub mod args;
pub mod config;
pub mod engine;
pub mod laws;
pub mod outcome;
pub mod policy;
pub mod visited;

pub use args::ArgumentError;
pub use args::Arguments;
pub use args::ComparisonStrategy;
pub use args::Directory;
pub use args::DirectoryParser;
pub use args::LoggingLevel;
pub use args::comparison_of;

pub use engine::EntryKind;
pub use engine::SEPARATOR;
pub use engine::SourceEntry;
pub use engine::TargetEntry;
pub use engine::TargetTree;
pub use engine::WalkAction;
pub use engine::apply_entry;
pub use engine::dispatch;
pub use engine::mirror_path;
pub use engine::walk;

pub use config::ConfigError;
pub use config::CopyConfig;
pub use config::effective_thread_count;
pub use outcome::CopyOutcome;
pub use outcome::CopySummary;
pub use outcome::FileCopyError;
pub use outcome::IoErrorKind;
pub use outcome::SkipReason;
pub use outcome::failure_outcome;
pub use policy::Comparison;
pub use policy::Decision;
pub use policy::DestMeta;
pub use policy::decide;
pub use policy::decision_of;
pub use visited::NodeId;
pub use visited::VisitedSet;

verus! {

use crate::engine::{copied_count, dest_after_walk, failed_count, skipped_count, source_models};

/// The engine entry point: validate the configuration, then replay the
/// enumerated source tree against the destination tree and report how many
/// files were copied, skipped and failed. A run with an explicit worker
/// count of zero is refused before any work starts; nothing else aborts the
/// run as a whole, since every file's failure is confined to that file.
pub fn copy(src: &Vec<SourceEntry>, dest: &mut TargetTree, config: &CopyConfig, now: i64) -> (r: Result<
    CopySummary,
    ConfigError,
>)
    ensures
        r is Err <==> config.thread_count == Some(0usize),
        r matches Err(e) ==> e == ConfigError::InvalidThreadCount && final(dest)@ == old(dest)@,
        r matches Ok(s) ==> final(dest)@ == dest_after_walk(
            source_models(src@),
            old(dest)@,
            *config,
            now,
        ) && s.copied == copied_count(source_models(src@), old(dest)@, *config, now) && s.skipped
            == skipped_count(source_models(src@), old(dest)@, *config, now) && s.failed
            == failed_count(source_models(src@), old(dest)@, *config, now),
{
    let valid = match config.thread_count {
        Some(t) => t >= 1,
        None => true,
    };
    if !valid {
        return Err(ConfigError::InvalidThreadCount);
    }
    Ok(walk(src, dest, config, now))
}

} // verus!
