//! The values the command-line front end hands to the engine, and the
//! validation it applies to them. The front end itself (flag parsing, the
//! probe of the filesystem, log verbosity) stands outside the library; it
//! reports what it observed of a path and these functions decide.

use vstd::prelude::*;
use crate::config::CopyConfig;
use crate::policy::Comparison;

verus! {

/// A path accepted as a directory argument.
#[derive(Debug)]
pub struct Directory(pub String);

/// Validates a directory argument before the engine runs.
#[derive(Clone, Copy, Debug)]
pub struct DirectoryParser;

/// Why a command-line argument was refused.
#[derive(Clone, Copy, Debug, PartialEq, Eq, Structural)]
pub enum ArgumentError {
    /// The path exists and is not a directory.
    NotADirectory,
}

impl Directory {
    /// The parser that validates this argument type.
    pub fn value_parser() -> (p: DirectoryParser) {
        DirectoryParser
    }
}

impl DirectoryParser {
    /// Accept a path as a directory argument: one that does not exist yet,
    /// or exists as a directory. `path_exists` and `is_dir` are what the front
    /// end observed of the path.
    pub fn parse_ref(&self, path: String, path_exists: bool, is_dir: bool) -> (r: Result<
        Directory,
        ArgumentError,
    >)
        ensures
            r is Ok <==> (!path_exists || is_dir),
            r is Ok ==> r->Ok_0.0@ == path@,
            r is Err ==> r->Err_0 == ArgumentError::NotADirectory,
    {
        if !path_exists || is_dir {
            Ok(Directory(path))
        } else {
            Err(ArgumentError::NotADirectory)
        }
    }
}

/// How much a run reports while it works.
#[derive(Clone, Copy, Debug, PartialEq, Eq, Structural)]
pub enum LoggingLevel {
    Info,
    Debug,
    Off,
}

/// The strategy named on the command line.
#[derive(Clone, Copy, Debug, PartialEq, Eq, Structural)]
pub enum ComparisonStrategy {
    /// Copy every file whether it exists or not.
    Off,
    /// Skip whenever the destination file exists.
    Exists,
    /// Compare the file modification dates.
    Date,
}

/// The engine strategy each argument value selects.
pub open spec fn comparison_of(value: ComparisonStrategy) -> Comparison {
    match value {
        ComparisonStrategy::Off => Comparison::Off,
        ComparisonStrategy::Exists => Comparison::Exists,
        ComparisonStrategy::Date => Comparison::Date,
    }
}

impl From<ComparisonStrategy> for Comparison {
    fn from(value: ComparisonStrategy) -> (r: Comparison) {
        match value {
            ComparisonStrategy::Off => Comparison::Off,
            ComparisonStrategy::Exists => Comparison::Exists,
            ComparisonStrategy::Date => Comparison::Date,
        }
    }
}

impl vstd::std_specs::convert::FromSpecImpl<ComparisonStrategy> for Comparison {
    open spec fn obeys_from_spec() -> bool {
        true
    }

    open spec fn from_spec(value: ComparisonStrategy) -> Comparison {
        comparison_of(value)
    }
}

/// Everything the command line hands to one run.
#[derive(Debug)]
pub struct Arguments {
    pub source: Directory,
    pub destination: Directory,
    pub threads: Option<usize>,
    pub follow_symlinks: bool,
    pub comparison: ComparisonStrategy,
    pub disable_copy_metadata: bool,
    pub level: LoggingLevel,
}

impl Arguments {
    /// The engine configuration these arguments ask for.
    pub fn to_config(&self) -> (c: CopyConfig)
        ensures
            c.thread_count == self.threads,
            c.follow_symlinks == self.follow_symlinks,
            c.comparison == comparison_of(self.comparison),
            c.preserve_metadata == !self.disable_copy_metadata,
    {
        CopyConfig {
            thread_count: self.threads,
            follow_symlinks: self.follow_symlinks,
            comparison: Comparison::from(self.comparison),
            preserve_metadata: !self.disable_copy_metadata,
        }
    }
}

} // verus!
