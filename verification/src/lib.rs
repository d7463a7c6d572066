//! Typed control of the `HandBrakeCLI` transcoder: argument building, launch
//! planning, and the demultiplexing of its console output into job events.
//!
//! The library decides and computes; it starts no process and reads no
//! stream. Whoever runs the transcoder hands the library what the system
//! returned, as plain values, and acts on what the library answers.

use vstd::prelude::*;
use vstd::string::StringExecFns;
use vstd::utf8::{decode_utf8, valid_utf8};

pub mod demux;
pub mod error;
pub mod event;
pub mod handle;
pub mod job;
pub mod progress;
pub mod testing;
pub mod text;

pub use error::Error;
pub use event::{
    AudioConfig, AudioTrackConfig, Config, DestinationConfig, JobEvent, JobFailure, Log, Progress,
    SourceConfig, VideoConfig,
};
pub use job::{InputSource, JobBuilder, OutputDestination};

use error::{ErrorView, OsFailure};
use job::JobSpec;
use text::{
    decode_text, push_signed_decimal, push_text, signed_decimal, trim, trimmed, utf8_error_text,
};

verus! {

/// What running a command to its end gave.
#[derive(Debug, PartialEq, Eq)]
pub struct CommandOutput {
    /// The exit code of the process; `None` where a signal ended it.
    pub code: Option<i32>,
    /// What the process wrote to its standard output.
    pub stdout: Vec<u8>,
    /// What the process wrote to its standard error.
    pub stderr: Vec<u8>,
}

/// A directory of the search path with the executable that it would hold.
#[derive(Debug, PartialEq, Eq)]
pub struct PathCandidate {
    /// The directory.
    pub directory: String,
    /// The path of `HandBrakeCLI` in that directory.
    pub executable: String,
    /// Whether a file stands at that path.
    pub is_file: bool,
}

/// How `{:?}` writes an optional exit code.
pub open spec fn exit_code_text(code: Option<i32>) -> Seq<char> {
    match code {
        Some(n) => "Some("@ + signed_decimal(n as int) + ")"@,
        None => "None"@,
    }
}

/// The reason for which the output of `--version` does not show a usable
/// `HandBrakeCLI`; `None` where it does.
pub open spec fn invalid_reason(run: Result<CommandOutput, OsFailure>) -> Option<Seq<char>> {
    match run {
        Err(failure) => Some(failure.message@),
        Ok(output) => if output.code != Some(0i32) {
            Some("'--version' command failed with exit code: "@ + exit_code_text(output.code))
        } else if !valid_utf8(output.stdout@) {
            Some("Failed to parse version output as UTF-8: "@ + utf8_error_text(output.stdout@))
        } else if trimmed(decode_utf8(output.stdout@)).len() == 0 {
            Some("HandBrakeCLI --version returned empty output"@)
        } else {
            None
        },
    }
}

/// What the validation of the executable at `path` comes to, given what
/// running it with `--version` gave: the version string, which is the
/// standard output without the white space around it, or the error that
/// says why the executable is invalid.
pub open spec fn validation(path: Seq<char>, run: Result<CommandOutput, OsFailure>) -> Result<
    Seq<char>,
    ErrorView,
> {
    match invalid_reason(run) {
        Some(reason) => Err(ErrorView::InvalidExecutable { path, reason }),
        None => Ok(trimmed(decode_utf8(run->Ok_0.stdout@))),
    }
}

/// The value of the result of a validation.
pub open spec fn validation_view(r: Result<String, Error>) -> Result<Seq<char>, ErrorView> {
    match r {
        Ok(version) => Ok(version@),
        Err(e) => Err(e@),
    }
}

fn invalid(path: &str, reason: String) -> (r: Result<String, Error>)
    ensures
        validation_view(r) == Err::<Seq<char>, ErrorView>(
            ErrorView::InvalidExecutable { path: path@, reason: reason@ },
        ),
{
    Err(Error::InvalidExecutable { path: String::from_str(path), reason })
}

/// Validates that the given path points to a runnable `HandBrakeCLI`
/// executable, from what running it with `--version` gave.
pub fn validate_executable(path: &str, run: Result<CommandOutput, OsFailure>) -> (r: Result<
    String,
    Error,
>)
    ensures
        validation_view(r) == validation(path@, run),
{
    let output = match run {
        Ok(output) => output,
        Err(failure) => {
            return invalid(path, failure.message);
        },
    };
    let succeeded = match output.code {
        Some(n) => n == 0,
        None => false,
    };
    if !succeeded {
        let mut reason = String::from_str("'--version' command failed with exit code: ");
        match output.code {
            Some(n) => {
                reason.append("Some(");
                push_signed_decimal(&mut reason, n as i64);
                reason.append(")");
            },
            None => {
                reason.append("None");
            },
        }
        assert(reason@ =~= "'--version' command failed with exit code: "@ + exit_code_text(
            output.code,
        ));
        return invalid(path, reason);
    }
    let version_output = match decode_text(output.stdout) {
        Ok(text) => text,
        Err(error) => {
            let mut reason = String::from_str("Failed to parse version output as UTF-8: ");
            reason.append(error.as_str());
            return invalid(path, reason);
        },
    };
    let version = trim(version_output.as_str());
    if version.unicode_len() == 0 {
        return invalid(path, String::from_str("HandBrakeCLI --version returned empty output"));
    }
    Ok(String::from_str(version))
}

/// The index of the first candidate at which a file stands; `None` where
/// there is none.
pub open spec fn first_file(candidates: Seq<PathCandidate>) -> Option<int>
    decreases candidates.len(),
{
    if candidates.len() == 0 {
        None
    } else if candidates[0].is_file {
        Some(0)
    } else {
        match first_file(candidates.drop_first()) {
            Some(i) => Some(i + 1),
            None => None,
        }
    }
}

/// The directories of the candidates, in their order.
pub open spec fn directories(candidates: Seq<PathCandidate>) -> Seq<Seq<char>> {
    candidates.map_values(|candidate: PathCandidate| candidate.directory@)
}

/// What the search comes to: the executable of the first directory that
/// holds one, or the error that lists the directories searched.
pub open spec fn search(candidates: Seq<PathCandidate>) -> Result<Seq<char>, ErrorView> {
    match first_file(candidates) {
        Some(i) => Ok(candidates[i].executable@),
        None => Err(ErrorView::ExecutableNotFound { searched_paths: directories(candidates) }),
    }
}

proof fn lemma_first_file_none(candidates: Seq<PathCandidate>)
    requires
        forall|i: int| 0 <= i < candidates.len() ==> !candidates[i].is_file,
    ensures
        first_file(candidates) is None,
    decreases candidates.len(),
{
    if candidates.len() > 0 {
        lemma_first_file_none(candidates.drop_first());
    }
}

proof fn lemma_first_file_at(candidates: Seq<PathCandidate>, at: int)
    requires
        0 <= at < candidates.len(),
        candidates[at].is_file,
        forall|i: int| 0 <= i < at ==> !candidates[i].is_file,
    ensures
        first_file(candidates) == Some(at),
    decreases at,
{
    if at > 0 {
        lemma_first_file_at(candidates.drop_first(), at - 1);
    }
}

/// Searches the directories of the search path, in their order, for the
/// HandBrake executable.
pub fn find_executable_in_path(candidates: Vec<PathCandidate>) -> (r: Result<String, Error>)
    ensures
        validation_view(r) == search(candidates@),
{
    let mut i: usize = 0;
    while i < candidates.len()
        invariant
            i <= candidates.len(),
            forall|k: int| 0 <= k < i ==> !candidates[k].is_file,
        decreases candidates.len() - i,
    {
        if candidates[i].is_file {
            proof {
                lemma_first_file_at(candidates@, i as int);
            }
            return Ok(candidates[i].executable.clone());
        }
        i = i + 1;
    }
    proof {
        lemma_first_file_none(candidates@);
    }
    let mut searched_paths: Vec<String> = Vec::new();
    let mut k: usize = 0;
    while k < candidates.len()
        invariant
            k <= candidates.len(),
            searched_paths.deep_view() == directories(candidates@.take(k as int)),
        decreases candidates.len() - k,
    {
        push_text(&mut searched_paths, candidates[k].directory.clone());
        proof {
            assert(candidates@.take(k + 1) =~= candidates@.take(k as int).push(candidates@[k as int]));
            assert(directories(candidates@.take(k + 1)) =~= directories(
                candidates@.take(k as int),
            ).push(candidates@[k as int].directory@));
        }
        k = k + 1;
    }
    assert(candidates@.take(k as int) =~= candidates@);
    Err(Error::ExecutableNotFound { searched_paths })
}

/// The main entry point of the library.
///
/// This struct holds the location and the version of a validated
/// `HandBrakeCLI` executable. It acts as a factory for creating new
/// `JobBuilder` instances.
#[derive(Debug)]
pub struct HandBrake {
    executable_path: String,
    version: String,
}

/// The value of the result of a discovery.
pub open spec fn discovery_view(r: Result<HandBrake, Error>) -> Result<
    (Seq<char>, Seq<char>),
    ErrorView,
> {
    match r {
        Ok(handbrake) => Ok((handbrake.path_text(), handbrake.version_text())),
        Err(e) => Err(e@),
    }
}

/// What the discovery of the executable at `path` comes to: the path with
/// the version, or the error of the validation.
pub open spec fn discovery(path: Seq<char>, run: Result<CommandOutput, OsFailure>) -> Result<
    (Seq<char>, Seq<char>),
    ErrorView,
> {
    match validation(path, run) {
        Ok(version) => Ok((path, version)),
        Err(e) => Err(e),
    }
}

impl HandBrake {
    /// The path to the executable.
    pub closed spec fn path_text(&self) -> Seq<char> {
        self.executable_path@
    }

    /// The version string of the executable.
    pub closed spec fn version_text(&self) -> Seq<char> {
        self.version@
    }

    /// Creates a new `HandBrake` instance from a search of the system
    /// `PATH`: `candidates` are its directories in their order, and `run` is
    /// what running the executable that was found with `--version` gave.
    ///
    /// # Errors
    ///
    /// Returns an `Error` if `HandBrakeCLI` is not found in any of the
    /// directories, or if the found executable is invalid (e.g., fails to
    /// return a version string).
    pub fn new(candidates: Vec<PathCandidate>, run: Result<CommandOutput, OsFailure>) -> (r: Result<
        HandBrake,
        Error,
    >)
        ensures
            discovery_view(r) == match search(candidates@) {
                Ok(path) => discovery(path, run),
                Err(e) => Err(e),
            },
    {
        match find_executable_in_path(candidates) {
            Ok(executable_path) => HandBrake::new_with_path(executable_path.as_str(), run),
            Err(e) => Err(e),
        }
    }

    /// Creates a new `HandBrake` instance using a specific path to
    /// `HandBrakeCLI`, from what running it with `--version` gave.
    ///
    /// # Errors
    ///
    /// Returns an `Error` if the executable could not be run, failed, or
    /// printed no version.
    pub fn new_with_path(path: &str, run: Result<CommandOutput, OsFailure>) -> (r: Result<
        HandBrake,
        Error,
    >)
        ensures
            discovery_view(r) == discovery(path@, run),
    {
        match validate_executable(path, run) {
            Ok(version) => Ok(HandBrake { executable_path: String::from_str(path), version }),
            Err(e) => Err(e),
        }
    }

    /// Returns the version string of the discovered `HandBrakeCLI`
    /// executable.
    ///
    /// The version is what `HandBrakeCLI --version` printed during
    /// initialization.
    pub fn version(&self) -> (r: &str)
        ensures
            r@ == self.version_text(),
    {
        self.version.as_str()
    }

    /// Returns the path to the discovered `HandBrakeCLI` executable.
    pub fn executable_path(&self) -> (r: &str)
        ensures
            r@ == self.path_text(),
    {
        self.executable_path.as_str()
    }

    /// Creates a new `JobBuilder` to configure an encoding job.
    ///
    /// # Arguments
    ///
    /// * `input` - The source for the encoding job (e.g., a file path or stdin).
    /// * `output` - The destination for the encoded file (e.g., a file path or stdout).
    pub fn job(&self, input: InputSource, output: OutputDestination) -> (r: JobBuilder)
        ensures
            r@ == JobSpec::fresh(self.path_text(), input@, output@),
    {
        JobBuilder::new(self.executable_path.clone(), input, output)
    }
}

} // verus!
