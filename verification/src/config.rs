//! The data the engine is configured with: rules, the kind of entry a rule
//! targets, the validated inputs handed over by the surrounding program, and
//! the errors reported for invalid input.

use vstd::prelude::*;

verus! {

/// Whether a rule targets regular files (matched by extension) or folders
/// (matched by base name).
#[derive(Clone, Copy, Debug, PartialEq, Eq, Structural)]
pub enum Kind {
    File,
    Folder,
}

/// What the filesystem reports an entry to be when it is inspected.
#[derive(Clone, Copy, Debug, PartialEq, Eq, Structural)]
pub enum EntryType {
    Directory,
    Regular,
    Other,
}

/// What the filesystem reports a user-supplied path to be.
#[derive(Clone, Copy, Debug, PartialEq, Eq, Structural)]
pub enum PathState {
    Missing,
    Directory,
    Other,
}

/// One cleanup directive: walk `destination` and delete every entry of the
/// targeted kind whose name or extension is in `patterns`, never touching a
/// name in `exclude`.
#[derive(Clone, Debug, PartialEq)]
pub struct Config {
    pub destination: String,
    pub kind: Kind,
    pub patterns: Vec<String>,
    pub exclude: Option<Vec<String>>,
}

impl Config {
    /// The pattern set as character sequences.
    pub open spec fn patterns_view(self) -> Seq<Seq<char>> {
        self.patterns.deep_view()
    }

    /// The exclusion set as character sequences; an absent set excludes
    /// nothing.
    pub open spec fn exclude_view(self) -> Seq<Seq<char>> {
        match self.exclude {
            Some(v) => v.deep_view(),
            None => Seq::empty(),
        }
    }

    pub fn new(
        destination: String,
        kind: Kind,
        patterns: Vec<String>,
        exclude: Option<Vec<String>>,
    ) -> (r: Config)
        ensures
            r == (Config { destination, kind, patterns, exclude }),
    {
        Config { destination, kind, patterns, exclude }
    }
}

/// The category of a fatal error: a usage mistake in the inputs, or a config
/// file that could not be parsed.
#[derive(Clone, Copy, Debug, PartialEq, Eq, Structural)]
pub enum AppErrorKind {
    Usage,
    Parse,
}

/// A fatal error reported before any traversal begins.
#[derive(Clone, Debug, PartialEq)]
pub struct AppError {
    pub kind: AppErrorKind,
    pub message: String,
}

impl AppError {
    pub fn new(kind: AppErrorKind, message: &str) -> (r: AppError)
        ensures
            r.kind == kind,
            r.message@ == message@,
    {
        AppError { kind, message: message.to_owned() }
    }
}

/// What the surrounding program observed of a config file it was pointed at:
/// the (absolute) path, what the filesystem says of it, and the rules parsed
/// out of it (`None` when it could not be read or did not match the schema).
#[derive(Clone, Debug, PartialEq)]
pub struct ConfigSource {
    pub path: String,
    pub state: PathState,
    pub rules: Option<Vec<Config>>,
}

/// A user-supplied destination path together with what the filesystem says
/// it is.
#[derive(Clone, Debug, PartialEq)]
pub struct PathProbe {
    pub path: String,
    pub state: PathState,
}

/// The raw inputs one invocation starts from: either a config file or the
/// discrete fields of a single rule, plus the dry-run flag.
#[derive(Clone, Debug, PartialEq)]
pub struct Engine {
    pub config: Option<ConfigSource>,
    pub destination: Option<PathProbe>,
    pub kind: Option<Kind>,
    pub patterns: Option<Vec<String>>,
    pub exclude: Option<Vec<String>>,
    pub dryrun: bool,
}

/// The argument bundle for a traversal driven through a mutable reference:
/// one destination, the rule fields, and the dry-run flag.
#[derive(Clone, Debug, PartialEq)]
pub struct Remove {
    pub destination: String,
    pub kind: Kind,
    pub patterns: Vec<String>,
    pub exclude: Vec<String>,
    pub dryrun: bool,
}

} // verus!
