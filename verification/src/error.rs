//! The failures that the library reports.

use vstd::prelude::*;

verus! {

/// The broad class of an operating-system failure.
#[derive(Debug, Clone, Copy, PartialEq, Eq)]
pub enum FailureKind {
    /// The thing asked for does not exist.
    NotFound,
    /// The platform offers no way to do what was asked.
    Unsupported,
    /// Data arrived that could not be read as what it should be.
    InvalidData,
    /// Any other failure.
    Other,
}

/// An operating-system failure, held as plain values: its class, its
/// message, and the error code of the system where it has one.
#[derive(Debug, PartialEq, Eq)]
pub struct OsFailure {
    pub kind: FailureKind,
    pub message: String,
    pub os_code: Option<i32>,
}

/// The mathematical value of an [`OsFailure`].
pub struct OsFailureView {
    pub kind: FailureKind,
    pub message: Seq<char>,
    pub os_code: Option<i32>,
}

impl View for OsFailure {
    type V = OsFailureView;

    open spec fn view(&self) -> OsFailureView {
        OsFailureView { kind: self.kind, message: self.message@, os_code: self.os_code }
    }
}

/// The primary error type of the library.
#[derive(Debug, PartialEq, Eq)]
pub enum Error {
    /// The `HandBrakeCLI` executable could not be found in the directories
    /// that were searched.
    ExecutableNotFound {
        /// The list of directories that were searched.
        searched_paths: Vec<String>,
    },
    /// The executable at the specified path is not a valid `HandBrakeCLI`.
    InvalidExecutable {
        /// The path to the invalid executable.
        path: String,
        /// The reason why the executable is considered invalid.
        reason: String,
    },
    /// The `HandBrakeCLI` process could not be spawned.
    ProcessSpawnFailed {
        /// The underlying failure.
        source: OsFailure,
    },
    /// A control command (`cancel`, `kill`) failed.
    ControlFailed {
        /// The control action that failed (`"cancel"`, `"kill"`).
        action: &'static str,
        /// The underlying failure.
        source: OsFailure,
    },
    /// A placeholder for any other kind of error.
    Unknown,
}

/// The mathematical value of an [`Error`].
pub enum ErrorView {
    ExecutableNotFound { searched_paths: Seq<Seq<char>> },
    InvalidExecutable { path: Seq<char>, reason: Seq<char> },
    ProcessSpawnFailed { source: OsFailureView },
    ControlFailed { action: Seq<char>, source: OsFailureView },
    Unknown,
}

impl View for Error {
    type V = ErrorView;

    open spec fn view(&self) -> ErrorView {
        match *self {
            Error::ExecutableNotFound { searched_paths } => ErrorView::ExecutableNotFound {
                searched_paths: searched_paths.deep_view(),
            },
            Error::InvalidExecutable { path, reason } => ErrorView::InvalidExecutable {
                path: path@,
                reason: reason@,
            },
            Error::ProcessSpawnFailed { source } => ErrorView::ProcessSpawnFailed {
                source: source@,
            },
            Error::ControlFailed { action, source } => ErrorView::ControlFailed {
                action: action@,
                source: source@,
            },
            Error::Unknown => ErrorView::Unknown,
        }
    }
}

impl From<OsFailure> for Error {
    /// A failure to spawn the process, as an [`Error`].
    fn from(source: OsFailure) -> (r: Error) {
        Error::ProcessSpawnFailed { source }
    }
}

impl vstd::std_specs::convert::FromSpecImpl<OsFailure> for Error {
    open spec fn obeys_from_spec() -> bool {
        true
    }

    open spec fn from_spec(source: OsFailure) -> Error {
        Error::ProcessSpawnFailed { source }
    }
}

} // verus!
