//! The events of a monitored job and the values they carry.

use vstd::prelude::*;

verus! {

/// An event emitted by a monitored `HandBrakeCLI` job.
#[derive(Debug, PartialEq, Eq)]
pub enum JobEvent {
    /// The initial job configuration, decoded from HandBrake's JSON output.
    /// This event is emitted once at the beginning of a monitored job.
    Config(Config),
    /// A progress update, typically emitted every second during an encode.
    Progress(Progress),
    /// A log message from the `HandBrakeCLI` `stderr` stream.
    Log(Log),
    /// A raw fragment of data from the `HandBrakeCLI` `stdout` stream that is
    /// not progress information. If the job's output destination is
    /// `stdout`, this holds the encoded video data.
    Fragment(Vec<u8>),
    /// Signals that the `HandBrakeCLI` process has terminated. Holds the
    /// final exit status on success, or a `JobFailure` on error.
    Done(Result<RawExitStatus, JobFailure>),
}

/// The mathematical value of a [`JobEvent`].
pub enum JobEventView {
    Config(Config),
    Progress(Progress),
    Log(Seq<char>),
    Fragment(Seq<u8>),
    Done(Result<RawExitStatus, JobFailureView>),
}

impl View for JobEvent {
    type V = JobEventView;

    open spec fn view(&self) -> JobEventView {
        match *self {
            JobEvent::Config(config) => JobEventView::Config(config),
            JobEvent::Progress(progress) => JobEventView::Progress(progress),
            JobEvent::Log(log) => JobEventView::Log(log.message@),
            JobEvent::Fragment(bytes) => JobEventView::Fragment(bytes@),
            JobEvent::Done(Ok(status)) => JobEventView::Done(Ok(status)),
            JobEvent::Done(Err(failure)) => JobEventView::Done(Err(failure@)),
        }
    }
}

impl DeepView for JobEvent {
    type V = JobEventView;

    open spec fn deep_view(&self) -> JobEventView {
        self@
    }
}

/// The status word with which the operating system reported the end of the
/// process.
#[derive(Debug, Clone, Copy, PartialEq, Eq)]
pub struct RawExitStatus {
    pub raw: i64,
}

/// The full job configuration as reported by `HandBrakeCLI`.
///
/// This struct captures the most relevant fields from the JSON block that
/// HandBrake prints at the start of a job, providing confirmation of the
/// settings being used for the encode.
#[derive(Debug, PartialEq, Eq)]
pub struct Config {
    /// Details about the input source.
    pub source: SourceConfig,
    /// Details about the output destination.
    pub destination: DestinationConfig,
    /// Details about the video encoding settings.
    pub video: VideoConfig,
    /// Details about the audio track configuration.
    pub audio_config: AudioConfig,
}

/// Details about the input source from the job configuration.
#[derive(Debug, PartialEq, Eq)]
pub struct SourceConfig {
    /// The path to the input file.
    pub path: String,
    /// The selected title from the source.
    pub title: u32,
}

/// Details about the output destination from the job configuration.
#[derive(Debug, PartialEq, Eq)]
pub struct DestinationConfig {
    /// The path to the output file.
    pub file: String,
    /// The container format (muxer) being used (e.g., "mp4", "mkv").
    pub mux: String,
}

/// Details about the video encoding from the job configuration.
#[derive(Debug, PartialEq, Eq)]
pub struct VideoConfig {
    /// The video codec being used (e.g., "x265", "av1").
    pub encoder: String,
    /// The quality setting for the encode, as the bit pattern of the
    /// IEEE 754 double that the transcoder reported.
    pub quality_bits: u64,
    /// The name of the preset being used, if any.
    pub preset: Option<String>,
}

/// Details about the audio tracks from the job configuration.
#[derive(Debug, PartialEq, Eq)]
pub struct AudioConfig {
    /// A list of all configured audio tracks for the job.
    pub audio_list: Vec<AudioTrackConfig>,
}

/// Details for a single audio track.
#[derive(Debug, PartialEq, Eq)]
pub struct AudioTrackConfig {
    /// The name of the audio codec being used (e.g., "aac", "ac3").
    pub encoder_name: String,
    /// The bitrate of the audio track.
    pub bitrate: u32,
}

/// A figure with two decimal places, held as its count of hundredths:
/// `12.34` is `Hundredths { value: 1234 }`.
#[derive(Debug, Clone, Copy, PartialEq, Eq)]
pub struct Hundredths {
    pub value: u64,
}

/// A progress update from an ongoing `HandBrakeCLI` job.
#[derive(Debug, Clone, Copy, PartialEq, Eq)]
pub struct Progress {
    /// The completion percentage of the current task.
    pub percentage: Hundredths,
    /// The instantaneous frames per second (FPS).
    pub fps: Hundredths,
    /// The average frames per second (FPS) for the job.
    pub avg_fps: Option<Hundredths>,
    /// The estimated time remaining until completion, in seconds.
    pub eta: Option<u64>,
}

/// A log message from the `HandBrakeCLI` process.
#[derive(Debug, PartialEq, Eq)]
pub struct Log {
    /// The content of the log message.
    pub message: String,
}

/// Details of a job failure.
#[derive(Debug, Clone, PartialEq, Eq)]
pub struct JobFailure {
    /// A message describing the failure.
    pub message: String,
    /// The exit code of the `HandBrakeCLI` process, if available.
    pub exit_code: Option<i32>,
}

/// The mathematical value of a [`JobFailure`].
pub struct JobFailureView {
    pub message: Seq<char>,
    pub exit_code: Option<i32>,
}

impl View for JobFailure {
    type V = JobFailureView;

    open spec fn view(&self) -> JobFailureView {
        JobFailureView { message: self.message@, exit_code: self.exit_code }
    }
}

} // verus!
