//! The configuration of an encoding job, the arguments that it becomes, and
//! the way the process is to be launched.

use vstd::prelude::*;
use vstd::string::StringExecFns;

use crate::text::{decimal, decimal_string, join, joined, push_text};

verus! {

/// Represents the input source for a `HandBrakeCLI` job.
#[derive(Debug, PartialEq, Eq)]
pub enum InputSource {
    /// Use a file as the input source.
    File(String),
    /// Use `stdin` as the input source.
    Stdin,
}

/// The mathematical value of an [`InputSource`].
pub enum InputSourceView {
    File(Seq<char>),
    Stdin,
}

impl View for InputSource {
    type V = InputSourceView;

    open spec fn view(&self) -> InputSourceView {
        match *self {
            InputSource::File(path) => InputSourceView::File(path@),
            InputSource::Stdin => InputSourceView::Stdin,
        }
    }
}

impl From<&str> for InputSource {
    /// The file at the path `p` as an input source.
    fn from(p: &str) -> (r: InputSource)
        ensures
            r@ == InputSourceView::File(p@),
    {
        InputSource::File(String::from_str(p))
    }
}

impl vstd::std_specs::convert::FromSpecImpl<&str> for InputSource {
    open spec fn obeys_from_spec() -> bool {
        false
    }

    open spec fn from_spec(p: &str) -> InputSource {
        arbitrary()
    }
}

/// Represents the output destination for a `HandBrakeCLI` job.
#[derive(Debug, PartialEq, Eq)]
pub enum OutputDestination {
    /// Write the output to a file.
    File(String),
    /// Write the output to `stdout`.
    Stdout,
}

/// The mathematical value of an [`OutputDestination`].
pub enum OutputDestinationView {
    File(Seq<char>),
    Stdout,
}

impl View for OutputDestination {
    type V = OutputDestinationView;

    open spec fn view(&self) -> OutputDestinationView {
        match *self {
            OutputDestination::File(path) => OutputDestinationView::File(path@),
            OutputDestination::Stdout => OutputDestinationView::Stdout,
        }
    }
}

impl From<&str> for OutputDestination {
    /// The file at the path `p` as an output destination.
    fn from(p: &str) -> (r: OutputDestination)
        ensures
            r@ == OutputDestinationView::File(p@),
    {
        OutputDestination::File(String::from_str(p))
    }
}

impl vstd::std_specs::convert::FromSpecImpl<&str> for OutputDestination {
    open spec fn obeys_from_spec() -> bool {
        false
    }

    open spec fn from_spec(p: &str) -> OutputDestination {
        arbitrary()
    }
}

/// Represents the subtitle selection mode.
#[derive(Debug, PartialEq, Eq)]
pub enum SubtitleSelection {
    /// Select specific subtitle tracks by their index.
    Tracks(Vec<u32>),
    /// Scan for foreign audio subtitles.
    Scan,
}

/// The mathematical value of a [`SubtitleSelection`].
pub enum SubtitleSelectionView {
    Tracks(Seq<u32>),
    Scan,
}

impl View for SubtitleSelection {
    type V = SubtitleSelectionView;

    open spec fn view(&self) -> SubtitleSelectionView {
        match *self {
            SubtitleSelection::Tracks(tracks) => SubtitleSelectionView::Tracks(tracks@),
            SubtitleSelection::Scan => SubtitleSelectionView::Scan,
        }
    }
}

/// Represents the subtitle burn-in mode.
#[derive(Debug, Clone, Copy, PartialEq, Eq)]
pub enum SubtitleBurnMode {
    /// Burn subtitles from foreign language audio tracks marked as "forced".
    Native,
    /// Disable burning of subtitles.
    Disabled,
}

/// Represents the default subtitle track selection.
#[derive(Debug, Clone, Copy, PartialEq, Eq)]
pub enum SubtitleDefaultMode {
    /// Set a specific track as the default.
    Track(u32),
    /// Flag no subtitle track as default.
    Disabled,
}

/// The mathematical value of a [`JobBuilder`]: every option with the value
/// that was last set for it.
pub struct JobSpec {
    pub handbrake_path: Seq<char>,
    pub input: InputSourceView,
    pub output: OutputDestinationView,
    pub preset: Option<Seq<char>>,
    pub video_codec: Option<Seq<char>>,
    pub width: Option<u32>,
    pub height: Option<u32>,
    /// The codec override of each audio track that has one.
    pub audio_codecs: Map<u32, Seq<char>>,
    pub quality: Option<Seq<char>>,
    pub format: Option<Seq<char>>,
    pub subtitle_selection: Option<SubtitleSelectionView>,
    pub subtitle_langs: Seq<Seq<char>>,
    pub subtitle_burned: Option<SubtitleBurnMode>,
    pub subtitle_forced: Option<u32>,
    pub subtitle_default: Option<SubtitleDefaultMode>,
    pub srt_file: Option<Seq<char>>,
    pub ssa_file: Option<Seq<char>>,
}

/// The arguments of an option with a text value: the flag and the value
/// where the option is set, nothing where it is not.
pub open spec fn text_args(flag: Seq<char>, value: Option<Seq<char>>) -> Seq<Seq<char>> {
    match value {
        Some(text) => seq![flag, text],
        None => Seq::empty(),
    }
}

/// The arguments of an option with a number as its value.
pub open spec fn number_args(flag: Seq<char>, value: Option<u32>) -> Seq<Seq<char>> {
    match value {
        Some(n) => seq![flag, decimal(n as nat)],
        None => Seq::empty(),
    }
}

/// The value of `-i`.
pub open spec fn input_text(input: InputSourceView) -> Seq<char> {
    match input {
        InputSourceView::File(path) => path,
        InputSourceView::Stdin => "pipe:0"@,
    }
}

/// The value of `-o`.
pub open spec fn output_text(output: OutputDestinationView) -> Seq<char> {
    match output {
        OutputDestinationView::File(path) => path,
        OutputDestinationView::Stdout => "pipe:1"@,
    }
}

/// The value of `--audio` for one track.
pub open spec fn audio_text(track: u32, codec: Seq<char>) -> Seq<char> {
    decimal(track as nat) + ","@ + codec
}

/// The `--audio` arguments of the overridden tracks below `bound`, in
/// ascending order of the track number.
pub open spec fn audio_args_below(codecs: Map<u32, Seq<char>>, bound: nat) -> Seq<Seq<char>>
    decreases bound,
{
    if bound == 0 {
        Seq::empty()
    } else {
        let track = (bound - 1) as u32;
        audio_args_below(codecs, (bound - 1) as nat) + (if codecs.dom().contains(track) {
            seq!["--audio"@, audio_text(track, codecs[track])]
        } else {
            Seq::empty()
        })
    }
}

/// The `--audio` arguments of all overridden tracks, in ascending order of
/// the track number.
pub open spec fn audio_args(codecs: Map<u32, Seq<char>>) -> Seq<Seq<char>> {
    audio_args_below(codecs, 0x1_0000_0000)
}

/// The decimal numerals of a list of track numbers.
pub open spec fn track_numerals(tracks: Seq<u32>) -> Seq<Seq<char>> {
    tracks.map_values(|track: u32| decimal(track as nat))
}

/// The value of `--subtitle`.
pub open spec fn subtitle_text(selection: Option<SubtitleSelectionView>) -> Option<Seq<char>> {
    match selection {
        Some(SubtitleSelectionView::Tracks(tracks)) => Some(joined(track_numerals(tracks), ","@)),
        Some(SubtitleSelectionView::Scan) => Some("scan"@),
        None => None,
    }
}

/// The arguments of `--subtitle-lang-list`.
pub open spec fn lang_args(langs: Seq<Seq<char>>) -> Seq<Seq<char>> {
    if langs.len() > 0 {
        seq!["--subtitle-lang-list"@, joined(langs, ","@)]
    } else {
        Seq::empty()
    }
}

/// The value of `--subtitle-burned`.
pub open spec fn burned_text(mode: Option<SubtitleBurnMode>) -> Option<Seq<char>> {
    match mode {
        Some(SubtitleBurnMode::Native) => Some("native"@),
        Some(SubtitleBurnMode::Disabled) => Some("none"@),
        None => None,
    }
}

/// The value of `--subtitle-default`.
pub open spec fn default_text(mode: Option<SubtitleDefaultMode>) -> Option<Seq<char>> {
    match mode {
        Some(SubtitleDefaultMode::Track(track)) => Some(decimal(track as nat)),
        Some(SubtitleDefaultMode::Disabled) => Some("none"@),
        None => None,
    }
}

/// The argument list of a job: input and output first, then each option
/// that is set, in a fixed order; nothing for an option that is not set.
pub open spec fn job_args(job: JobSpec) -> Seq<Seq<char>> {
    seq!["-i"@, input_text(job.input), "-o"@, output_text(job.output)]
        + text_args("--preset"@, job.preset)
        + text_args("--encoder"@, job.video_codec)
        + number_args("--width"@, job.width)
        + number_args("--height"@, job.height)
        + audio_args(job.audio_codecs)
        + text_args("--quality"@, job.quality)
        + text_args("--format"@, job.format)
        + text_args("--subtitle"@, subtitle_text(job.subtitle_selection))
        + lang_args(job.subtitle_langs)
        + text_args("--subtitle-burned"@, burned_text(job.subtitle_burned))
        + number_args("--subtitle-forced"@, job.subtitle_forced)
        + text_args("--subtitle-default"@, default_text(job.subtitle_default))
        + text_args("--srt-file"@, job.srt_file)
        + text_args("--ssa-file"@, job.ssa_file)
}

/// The codec override of one audio track.
struct AudioOverride {
    track: u32,
    codec: String,
}

/// Whether the overrides stand in strictly ascending order of their track,
/// so that no track has two.
spec fn ascending(entries: Seq<AudioOverride>) -> bool {
    forall|i: int, j: int| 0 <= i < j < entries.len() ==> entries[i].track < entries[j].track
}

/// Whether `track` has an override among `entries`.
spec fn has_track(entries: Seq<AudioOverride>, track: u32) -> bool {
    exists|i: int| 0 <= i < entries.len() && #[trigger] entries[i].track == track
}

/// The index of an override of `track` among `entries`.
spec fn index_of_track(entries: Seq<AudioOverride>, track: u32) -> int {
    choose|i: int| 0 <= i < entries.len() && #[trigger] entries[i].track == track
}

/// The codec overrides as a map from the track to its codec.
spec fn codec_map(entries: Seq<AudioOverride>) -> Map<u32, Seq<char>> {
    Map::new(
        |track: u32| has_track(entries, track),
        |track: u32| entries[index_of_track(entries, track)].codec@,
    )
}

/// The codec overrides of the audio tracks, one per track, kept in ascending
/// order of the track number.
struct AudioOverrides {
    entries: Vec<AudioOverride>,
}

impl AudioOverrides {
    #[verifier::type_invariant]
    spec fn in_order(self) -> bool {
        ascending(self.entries@)
    }

    spec fn codecs(&self) -> Map<u32, Seq<char>> {
        codec_map(self.entries@)
    }

    fn new() -> (r: AudioOverrides)
        ensures
            r.codecs() == Map::<u32, Seq<char>>::empty(),
    {
        let r = AudioOverrides { entries: Vec::new() };
        assert(r.codecs() =~= Map::<u32, Seq<char>>::empty());
        r
    }

    /// Sets the codec of `track`, in place of the one it had, if any.
    fn set(self, track: u32, codec: String) -> (r: AudioOverrides)
        ensures
            r.codecs() == self.codecs().insert(track, codec@),
    {
        proof {
            use_type_invariant(&self);
        }
        let ghost before = self.entries@;
        let mut entries = self.entries;
        let mut at: usize = 0;
        while at < entries.len() && entries[at].track < track
            invariant
                entries@ == before,
                at <= entries.len(),
                forall|k: int| 0 <= k < at ==> entries[k].track < track,
            decreases entries.len() - at,
        {
            at = at + 1;
        }
        let ghost codec_view = codec@;
        let replace = at < entries.len() && entries[at].track == track;
        if replace {
            entries.set(at, AudioOverride { track, codec });
        } else {
            entries.insert(at, AudioOverride { track, codec });
        }
        proof {
            let after = entries@;
            assert(after[at as int].track == track);
            assert(after[at as int].codec@ == codec_view);
            assert(ascending(after)) by {
                assert forall|i: int, j: int| 0 <= i < j < after.len() implies after[i].track
                    < after[j].track by {
                    if replace {
                        assert(i == at || after[i] == before[i]);
                        assert(j == at || after[j] == before[j]);
                    } else {
                        assert(i == at || (i < at && after[i] == before[i]) || (i > at && after[i]
                            == before[i - 1]));
                        assert(j == at || (j < at && after[j] == before[j]) || (j > at && after[j]
                            == before[j - 1]));
                    }
                }
            }
            assert forall|t: u32| has_track(after, t) <==> (t == track || has_track(before, t)) by {
                if has_track(after, t) && t != track {
                    let i = index_of_track(after, t);
                    if replace {
                        assert(before[i].track == t);
                    } else if i < at {
                        assert(before[i].track == t);
                    } else {
                        assert(before[i - 1].track == t);
                    }
                }
                if has_track(before, t) && t != track {
                    let i = index_of_track(before, t);
                    if replace {
                        assert(after[i].track == t);
                    } else if i < at {
                        assert(after[i].track == t);
                    } else {
                        assert(after[i + 1].track == t);
                    }
                }
            }
            assert forall|t: u32| has_track(after, t) implies #[trigger] codec_map(after)[t] == (
            if t == track {
                codec_view
            } else {
                codec_map(before)[t]
            }) by {
                let i = index_of_track(after, t);
                if t == track {
                    assert(i == at);
                } else {
                    let j = index_of_track(before, t);
                    if replace {
                        assert(after[j] == before[j]);
                        assert(i == j);
                    } else if j < at {
                        assert(after[j] == before[j]);
                        assert(i == j);
                    } else {
                        assert(after[j + 1] == before[j]);
                        assert(i == j + 1);
                    }
                }
            }
            assert(codec_map(after) =~= codec_map(before).insert(track, codec_view));
        }
        AudioOverrides { entries }
    }
}

/// How one of the three standard streams of the process is set up.
#[derive(Debug, Clone, Copy, PartialEq, Eq, Structural)]
pub enum StdioMode {
    /// The stream of the caller is handed on.
    Inherit,
    /// The stream is a pipe to the caller.
    Piped,
}

/// How the transcoder process is to be launched.
#[derive(Debug, PartialEq, Eq)]
pub struct LaunchPlan {
    /// The path to the executable.
    pub program: String,
    /// The arguments, in their order.
    pub args: Vec<String>,
    pub stdin: StdioMode,
    pub stdout: StdioMode,
    pub stderr: StdioMode,
    /// Whether the process is to lead a process group of its own, on
    /// platforms that deliver console signals by group.
    pub new_process_group: bool,
}

/// The mathematical value of a [`LaunchPlan`].
pub struct LaunchPlanView {
    pub program: Seq<char>,
    pub args: Seq<Seq<char>>,
    pub stdin: StdioMode,
    pub stdout: StdioMode,
    pub stderr: StdioMode,
    pub new_process_group: bool,
}

impl View for LaunchPlan {
    type V = LaunchPlanView;

    open spec fn view(&self) -> LaunchPlanView {
        LaunchPlanView {
            program: self.program@,
            args: self.args.deep_view(),
            stdin: self.stdin,
            stdout: self.stdout,
            stderr: self.stderr,
            new_process_group: self.new_process_group,
        }
    }
}

/// The standard input of the process: a pipe where the job reads from the
/// standard input stream, else the stream of the caller.
pub open spec fn stdin_mode(input: InputSourceView) -> StdioMode {
    match input {
        InputSourceView::Stdin => StdioMode::Piped,
        InputSourceView::File(_) => StdioMode::Inherit,
    }
}

/// The standard output of an unmonitored process: a pipe where the job
/// writes to the standard output stream, else the stream of the caller.
pub open spec fn stdout_mode(output: OutputDestinationView) -> StdioMode {
    match output {
        OutputDestinationView::Stdout => StdioMode::Piped,
        OutputDestinationView::File(_) => StdioMode::Inherit,
    }
}

/// The launch that the job's source and destination ask for: standard input
/// and standard output as [`stdin_mode`] and [`stdout_mode`] say, standard
/// error handed on, the process leading a group of its own.
pub open spec fn process_launch(job: JobSpec) -> LaunchPlanView {
    LaunchPlanView {
        program: job.handbrake_path,
        args: job_args(job),
        stdin: stdin_mode(job.input),
        stdout: stdout_mode(job.output),
        stderr: StdioMode::Inherit,
        new_process_group: true,
    }
}

/// The launch of a job that is not monitored: standard error is handed on.
pub open spec fn status_launch(job: JobSpec) -> LaunchPlanView {
    LaunchPlanView { stderr: StdioMode::Inherit, ..process_launch(job) }
}

/// The launch of a monitored job: standard output and standard error are
/// always pipes.
pub open spec fn start_launch(job: JobSpec) -> LaunchPlanView {
    LaunchPlanView { stdout: StdioMode::Piped, stderr: StdioMode::Piped, ..process_launch(job) }
}

fn push_pair(args: &mut Vec<String>, flag: &str, value: String)
    ensures
        final(args).deep_view() == old(args).deep_view() + seq![flag@, value@],
{
    push_text(args, String::from_str(flag));
    push_text(args, value);
    assert(args.deep_view() =~= old(args).deep_view() + seq![flag@, value@]);
}

fn push_text_option(args: &mut Vec<String>, flag: &str, value: &Option<String>)
    ensures
        final(args).deep_view() == old(args).deep_view() + text_args(flag@, value.deep_view()),
{
    match value {
        Some(text) => {
            push_pair(args, flag, text.clone());
        },
        None => {
            assert(args.deep_view() =~= old(args).deep_view() + Seq::<Seq<char>>::empty());
        },
    }
}

fn push_number_option(args: &mut Vec<String>, flag: &str, value: Option<u32>)
    ensures
        final(args).deep_view() == old(args).deep_view() + number_args(flag@, value),
{
    match value {
        Some(n) => {
            push_pair(args, flag, decimal_string(n as u64));
        },
        None => {
            assert(args.deep_view() =~= old(args).deep_view() + Seq::<Seq<char>>::empty());
        },
    }
}

pub proof fn lemma_audio_args_gap(codecs: Map<u32, Seq<char>>, low: nat, high: nat)
    requires
        low <= high <= 0x1_0000_0000,
        forall|track: u32| low <= track < high ==> !codecs.dom().contains(track),
    ensures
        audio_args_below(codecs, high) == audio_args_below(codecs, low),
    decreases high - low,
{
    if low < high {
        lemma_audio_args_gap(codecs, low, (high - 1) as nat);
        assert(!codecs.dom().contains((high - 1) as u32));
        assert(audio_args_below(codecs, high) =~= audio_args_below(codecs, (high - 1) as nat));
    }
}

/// The text of a list of subtitle tracks: their numbers with commas
/// between them.
fn tracks_text(tracks: &Vec<u32>) -> (r: String)
    ensures
        r@ == joined(track_numerals(tracks@), ","@),
{
    let mut numerals: Vec<String> = Vec::new();
    let mut i: usize = 0;
    while i < tracks.len()
        invariant
            i <= tracks.len(),
            numerals.deep_view() == track_numerals(tracks@.take(i as int)),
        decreases tracks.len() - i,
    {
        let ghost before = numerals.deep_view();
        push_text(&mut numerals, decimal_string(tracks[i] as u64));
        proof {
            assert(tracks@.take(i + 1) =~= tracks@.take(i as int).push(tracks@[i as int]));
            assert(numerals.deep_view() =~= track_numerals(tracks@.take(i + 1)));
        }
        i = i + 1;
    }
    assert(tracks@.take(i as int) =~= tracks@);
    join(&numerals, ",")
}

impl AudioOverrides {
    /// Appends the `--audio` arguments of all overrides, in ascending order
    /// of the track number.
    fn push_args(&self, args: &mut Vec<String>)
        ensures
            final(args).deep_view() == old(args).deep_view() + audio_args(self.codecs()),
    {
        proof {
            use_type_invariant(self);
        }
        let ghost codecs = self.codecs();
        let ghost entries = self.entries@;
        let mut i: usize = 0;
        let ghost mut bound: nat = 0;
        assert(args.deep_view() =~= old(args).deep_view() + audio_args_below(codecs, 0));
        while i < self.entries.len()
            invariant
                i <= self.entries.len(),
                entries == self.entries@,
                ascending(entries),
                codecs == codec_map(entries),
                bound <= 0x1_0000_0000,
                i > 0 ==> bound == entries[i - 1].track + 1,
                i == 0 ==> bound == 0,
                args.deep_view() == old(args).deep_view() + audio_args_below(codecs, bound),
            decreases self.entries.len() - i,
        {
            let entry = &self.entries[i];
            let mut value = decimal_string(entry.track as u64);
            value.append(",");
            value.append(entry.codec.as_str());
            let ghost before = args.deep_view();
            push_pair(args, "--audio", value);
            proof {
                let track = entry.track;
                assert(has_track(entries, track)) by {
                    assert(entries[i as int].track == track);
                }
                assert(index_of_track(entries, track) == i);
                assert forall|t: u32| bound <= t < track implies !codecs.dom().contains(t) by {
                    if has_track(entries, t) {
                        let k = index_of_track(entries, t);
                        if k < i {
                            assert(entries[k].track <= entries[i - 1].track);
                        } else if k > i {
                            assert(entries[i as int].track < entries[k].track);
                        }
                    }
                }
                lemma_audio_args_gap(codecs, bound, track as nat);
                assert(value@ =~= audio_text(track, codecs[track]));
                assert(args.deep_view() =~= old(args).deep_view() + audio_args_below(
                    codecs,
                    (track + 1) as nat,
                ));
                bound = (track + 1) as nat;
            }
            i = i + 1;
        }
        proof {
            assert forall|t: u32| bound <= t < 0x1_0000_0000 implies !codecs.dom().contains(t) by {
                if has_track(entries, t) {
                    let k = index_of_track(entries, t);
                    if i > 0 {
                        assert(entries[k].track <= entries[i - 1].track);
                    }
                }
            }
            lemma_audio_args_gap(codecs, bound, 0x1_0000_0000);
        }
    }
}

/// The same configuration gives the same argument list: the list is a
/// function of the options alone.
pub proof fn lemma_args_deterministic(first: JobBuilder, second: JobBuilder)
    requires
        first@ == second@,
    ensures
        job_args(first@) == job_args(second@),
{
}

/// The last value set for an option is the one that counts: setting an
/// option twice leaves the job as setting it to the second value alone does.
/// This holds of every option with one value, and of the codec of an audio
/// track.
pub proof fn lemma_last_value_wins(
    job: JobSpec,
    first: Seq<char>,
    second: Seq<char>,
    first_number: u32,
    second_number: u32,
    first_burn: SubtitleBurnMode,
    second_burn: SubtitleBurnMode,
    first_default: SubtitleDefaultMode,
    second_default: SubtitleDefaultMode,
)
    ensures
        (JobSpec {
            subtitle_burned: Some(second_burn),
            ..(JobSpec { subtitle_burned: Some(first_burn), ..job })
        }) == (JobSpec { subtitle_burned: Some(second_burn), ..job }),
        (JobSpec {
            subtitle_default: Some(second_default),
            ..(JobSpec { subtitle_default: Some(first_default), ..job })
        }) == (JobSpec { subtitle_default: Some(second_default), ..job }),
        (JobSpec { preset: Some(second), ..(JobSpec { preset: Some(first), ..job }) }) == (JobSpec {
            preset: Some(second),
            ..job
        }),
        (JobSpec { video_codec: Some(second), ..(JobSpec { video_codec: Some(first), ..job }) })
            == (JobSpec { video_codec: Some(second), ..job }),
        (JobSpec { quality: Some(second), ..(JobSpec { quality: Some(first), ..job }) })
            == (JobSpec { quality: Some(second), ..job }),
        (JobSpec { format: Some(second), ..(JobSpec { format: Some(first), ..job }) }) == (JobSpec {
            format: Some(second),
            ..job
        }),
        (JobSpec { srt_file: Some(second), ..(JobSpec { srt_file: Some(first), ..job }) })
            == (JobSpec { srt_file: Some(second), ..job }),
        (JobSpec { ssa_file: Some(second), ..(JobSpec { ssa_file: Some(first), ..job }) })
            == (JobSpec { ssa_file: Some(second), ..job }),
        (JobSpec { width: Some(second_number), ..(JobSpec { width: Some(first_number), ..job }) })
            == (JobSpec { width: Some(second_number), ..job }),
        (JobSpec { height: Some(second_number), ..(JobSpec { height: Some(first_number), ..job }) })
            == (JobSpec { height: Some(second_number), ..job }),
        (JobSpec {
            subtitle_forced: Some(second_number),
            ..(JobSpec { subtitle_forced: Some(first_number), ..job })
        }) == (JobSpec { subtitle_forced: Some(second_number), ..job }),
        job.audio_codecs.insert(first_number, first).insert(first_number, second)
            == job.audio_codecs.insert(first_number, second),
{
    assert(job.audio_codecs.insert(first_number, first).insert(first_number, second)
        =~= job.audio_codecs.insert(first_number, second));
}

/// The arguments of the tracks below a bound stand at the front of the
/// arguments of the tracks below any higher bound.
pub proof fn lemma_audio_args_prefix(codecs: Map<u32, Seq<char>>, low: nat, high: nat)
    requires
        low <= high,
    ensures
        audio_args_below(codecs, low).len() <= audio_args_below(codecs, high).len(),
        audio_args_below(codecs, high).take(audio_args_below(codecs, low).len() as int)
            == audio_args_below(codecs, low),
    decreases high - low,
{
    if low < high {
        lemma_audio_args_prefix(codecs, low, (high - 1) as nat);
        let shorter = audio_args_below(codecs, (high - 1) as nat);
        let n = audio_args_below(codecs, low).len() as int;
        assert(audio_args_below(codecs, high).take(n) =~= shorter.take(n));
    } else {
        assert(audio_args_below(codecs, high).take(audio_args_below(codecs, low).len() as int)
            =~= audio_args_below(codecs, low));
    }
}

/// The audio overrides appear in ascending order of their track. The
/// arguments of an overridden track stand right after those of all lower
/// tracks: `--audio`, then the track and its codec. So of two overridden
/// tracks the lower one comes first.
pub proof fn lemma_audio_args_ascending(codecs: Map<u32, Seq<char>>, lower: u32, higher: u32)
    requires
        codecs.dom().contains(lower),
        codecs.dom().contains(higher),
        lower < higher,
    ensures
        ({
            let args = audio_args(codecs);
            let at_lower = audio_args_below(codecs, lower as nat).len() as int;
            let at_higher = audio_args_below(codecs, higher as nat).len() as int;
            &&& at_lower + 2 <= at_higher
            &&& at_higher + 2 <= args.len()
            &&& args[at_lower] == "--audio"@
            &&& args[at_lower + 1] == audio_text(lower, codecs[lower])
            &&& args[at_higher] == "--audio"@
            &&& args[at_higher + 1] == audio_text(higher, codecs[higher])
        }),
{
    let args = audio_args(codecs);
    let below_lower = audio_args_below(codecs, lower as nat);
    let with_lower = audio_args_below(codecs, (lower + 1) as nat);
    let below_higher = audio_args_below(codecs, higher as nat);
    let with_higher = audio_args_below(codecs, (higher + 1) as nat);
    assert(with_lower =~= below_lower + seq!["--audio"@, audio_text(lower, codecs[lower])]);
    assert(with_higher =~= below_higher + seq!["--audio"@, audio_text(higher, codecs[higher])]);
    lemma_audio_args_prefix(codecs, (lower + 1) as nat, higher as nat);
    lemma_audio_args_prefix(codecs, (lower + 1) as nat, 0x1_0000_0000);
    lemma_audio_args_prefix(codecs, (higher + 1) as nat, 0x1_0000_0000);
    let n = with_lower.len() as int;
    let m = with_higher.len() as int;
    let i = below_lower.len() as int;
    let j = below_higher.len() as int;
    assert(args.take(n)[i] == args[i]);
    assert(args.take(n)[i + 1] == args[i + 1]);
    assert(args.take(m)[j] == args[j]);
    assert(args.take(m)[j + 1] == args[j + 1]);
}

/// A fluent builder for configuring a `HandBrakeCLI` encoding job.
pub struct JobBuilder {
    // The path to the HandBrakeCLI executable
    handbrake_path: String,
    // The input source for the job
    input: InputSource,
    // The output destination for the job
    output: OutputDestination,
    // Configuration options, stored to ensure "last call wins"
    preset: Option<String>,
    video_codec: Option<String>,
    width: Option<u32>,
    height: Option<u32>,
    // Maps track number to codec string. Allows overriding specific tracks.
    audio_codecs: AudioOverrides,
    quality: Option<String>,
    format: Option<String>,
    subtitle_selection: Option<SubtitleSelection>,
    subtitle_langs: Vec<String>,
    subtitle_burned: Option<SubtitleBurnMode>,
    subtitle_forced: Option<u32>,
    subtitle_default: Option<SubtitleDefaultMode>,
    srt_file: Option<String>,
    ssa_file: Option<String>,
}

impl View for JobBuilder {
    type V = JobSpec;

    closed spec fn view(&self) -> JobSpec {
        JobSpec {
            handbrake_path: self.handbrake_path@,
            input: self.input@,
            output: self.output@,
            preset: self.preset.deep_view(),
            video_codec: self.video_codec.deep_view(),
            width: self.width,
            height: self.height,
            audio_codecs: self.audio_codecs.codecs(),
            quality: self.quality.deep_view(),
            format: self.format.deep_view(),
            subtitle_selection: match self.subtitle_selection {
                Some(selection) => Some(selection@),
                None => None,
            },
            subtitle_langs: self.subtitle_langs.deep_view(),
            subtitle_burned: self.subtitle_burned,
            subtitle_forced: self.subtitle_forced,
            subtitle_default: self.subtitle_default,
            srt_file: self.srt_file.deep_view(),
            ssa_file: self.ssa_file.deep_view(),
        }
    }
}

impl JobSpec {
    /// A job with no option set.
    pub open spec fn fresh(
        handbrake_path: Seq<char>,
        input: InputSourceView,
        output: OutputDestinationView,
    ) -> JobSpec {
        JobSpec {
            handbrake_path,
            input,
            output,
            preset: None,
            video_codec: None,
            width: None,
            height: None,
            audio_codecs: Map::empty(),
            quality: None,
            format: None,
            subtitle_selection: None,
            subtitle_langs: Seq::empty(),
            subtitle_burned: None,
            subtitle_forced: None,
            subtitle_default: None,
            srt_file: None,
            ssa_file: None,
        }
    }

    /// The subtitle selection after one more track was asked for: the
    /// tracks asked for so far and this one, or this one alone where a scan
    /// or nothing was selected.
    pub open spec fn with_subtitle(self, track: u32) -> JobSpec {
        JobSpec {
            subtitle_selection: Some(
                match self.subtitle_selection {
                    Some(SubtitleSelectionView::Tracks(tracks)) => SubtitleSelectionView::Tracks(
                        tracks.push(track),
                    ),
                    _ => SubtitleSelectionView::Tracks(seq![track]),
                },
            ),
            ..self
        }
    }
}

impl JobBuilder {
    /// Creates a new `JobBuilder` instance.
    ///
    /// This is typically called via `HandBrake::job()`.
    pub fn new(handbrake_path: String, input: InputSource, output: OutputDestination) -> (r:
        JobBuilder)
        ensures
            r@ == JobSpec::fresh(handbrake_path@, input@, output@),
    {
        let r = JobBuilder {
            handbrake_path,
            input,
            output,
            preset: None,
            video_codec: None,
            width: None,
            height: None,
            audio_codecs: AudioOverrides::new(),
            quality: None,
            format: None,
            subtitle_selection: None,
            subtitle_langs: Vec::new(),
            subtitle_burned: None,
            subtitle_forced: None,
            subtitle_default: None,
            srt_file: None,
            ssa_file: None,
        };
        assert(r.subtitle_langs.deep_view() =~= Seq::<Seq<char>>::empty());
        r
    }

    /// Sets the `HandBrakeCLI` preset.
    ///
    /// e.g., `"Fast 1080p30"`
    pub fn preset(self, preset: &str) -> (r: JobBuilder)
        ensures
            r@ == (JobSpec { preset: Some(preset@), ..self@ }),
    {
        let mut r = self;
        r.preset = Some(String::from_str(preset));
        r
    }

    /// Overrides the video codec.
    ///
    /// e.g., `"x265"`, `"hevc"`, `"av1"`
    pub fn video_codec(self, codec: &str) -> (r: JobBuilder)
        ensures
            r@ == (JobSpec { video_codec: Some(codec@), ..self@ }),
    {
        let mut r = self;
        r.video_codec = Some(String::from_str(codec));
        r
    }

    /// Sets the output container format.
    ///
    /// e.g., `"mp4"`, `"mkv"`
    pub fn format(self, format: &str) -> (r: JobBuilder)
        ensures
            r@ == (JobSpec { format: Some(format@), ..self@ }),
    {
        let mut r = self;
        r.format = Some(String::from_str(format));
        r
    }

    /// Overrides the audio codec for a specific track.
    ///
    /// `HandBrakeCLI` uses `--audio <track_id>,<encoder>`.
    /// If called multiple times for the same track, the last call wins.
    pub fn audio_codec(self, track: u32, codec: &str) -> (r: JobBuilder)
        ensures
            r@ == (JobSpec { audio_codecs: self@.audio_codecs.insert(track, codec@), ..self@ }),
    {
        let JobBuilder {
            handbrake_path,
            input,
            output,
            preset,
            video_codec,
            width,
            height,
            audio_codecs,
            quality,
            format,
            subtitle_selection,
            subtitle_langs,
            subtitle_burned,
            subtitle_forced,
            subtitle_default,
            srt_file,
            ssa_file,
        } = self;
        JobBuilder {
            handbrake_path,
            input,
            output,
            preset,
            video_codec,
            width,
            height,
            audio_codecs: audio_codecs.set(track, String::from_str(codec)),
            quality,
            format,
            subtitle_selection,
            subtitle_langs,
            subtitle_burned,
            subtitle_forced,
            subtitle_default,
            srt_file,
            ssa_file,
        }
    }

    /// Adds a subtitle track to the job.
    ///
    /// This can be called multiple times to include multiple subtitle tracks.
    /// This will override a previous call to `subtitle_scan()`.
    pub fn subtitle(self, track: u32) -> (r: JobBuilder)
        ensures
            r@ == self@.with_subtitle(track),
    {
        let mut r = self;
        let tracks = match r.subtitle_selection {
            Some(SubtitleSelection::Tracks(existing_tracks)) => {
                let mut tracks = existing_tracks;
                tracks.push(track);
                tracks
            },
            _ => {
                let mut tracks: Vec<u32> = Vec::new();
                tracks.push(track);
                assert(tracks@ =~= seq![track]);
                tracks
            },
        };
        r.subtitle_selection = Some(SubtitleSelection::Tracks(tracks));
        r
    }

    /// Enables foreign audio scan for subtitles.
    ///
    /// This will override any previous calls to `subtitle()`.
    pub fn subtitle_scan(self) -> (r: JobBuilder)
        ensures
            r@ == (JobSpec { subtitle_selection: Some(SubtitleSelectionView::Scan), ..self@ }),
    {
        let mut r = self;
        r.subtitle_selection = Some(SubtitleSelection::Scan);
        r
    }

    /// Adds a subtitle language to select tracks by.
    ///
    /// Can be called multiple times. e.g., `"eng"`, `"fre"`.
    /// Uses the `iso639-2` code.
    pub fn subtitle_lang(self, lang: &str) -> (r: JobBuilder)
        ensures
            r@ == (JobSpec { subtitle_langs: self@.subtitle_langs.push(lang@), ..self@ }),
    {
        let mut r = self;
        push_text(&mut r.subtitle_langs, String::from_str(lang));
        r
    }

    /// Sets the subtitle burn-in mode.
    pub fn subtitle_burned(self, mode: SubtitleBurnMode) -> (r: JobBuilder)
        ensures
            r@ == (JobSpec { subtitle_burned: Some(mode), ..self@ }),
    {
        let mut r = self;
        r.subtitle_burned = Some(mode);
        r
    }

    /// Force display of subtitles from the specified track only if the
    /// "forced" flag is set.
    pub fn subtitle_forced(self, track: u32) -> (r: JobBuilder)
        ensures
            r@ == (JobSpec { subtitle_forced: Some(track), ..self@ }),
    {
        let mut r = self;
        r.subtitle_forced = Some(track);
        r
    }

    /// Sets the default subtitle track.
    pub fn subtitle_default(self, mode: SubtitleDefaultMode) -> (r: JobBuilder)
        ensures
            r@ == (JobSpec { subtitle_default: Some(mode), ..self@ }),
    {
        let mut r = self;
        r.subtitle_default = Some(mode);
        r
    }

    /// Imports subtitles from an external SRT file.
    ///
    /// The `file` string can include comma-separated srt files.
    pub fn srt_file(self, file: &str) -> (r: JobBuilder)
        ensures
            r@ == (JobSpec { srt_file: Some(file@), ..self@ }),
    {
        let mut r = self;
        r.srt_file = Some(String::from_str(file));
        r
    }

    /// Imports subtitles from an external SSA file.
    ///
    /// The `file` string can include comma-separated ssa files.
    pub fn ssa_file(self, file: &str) -> (r: JobBuilder)
        ensures
            r@ == (JobSpec { ssa_file: Some(file@), ..self@ }),
    {
        let mut r = self;
        r.ssa_file = Some(String::from_str(file));
        r
    }

    /// Sets the constant quality (RF) for video encoding, as the text that
    /// is to follow `--quality`.
    ///
    /// The value typically ranges from 0 to 51 (lower is better quality).
    pub fn quality(self, quality: &str) -> (r: JobBuilder)
        ensures
            r@ == (JobSpec { quality: Some(quality@), ..self@ }),
    {
        let mut r = self;
        r.quality = Some(String::from_str(quality));
        r
    }

    /// Sets the width of the picture.
    pub fn width(self, width: u32) -> (r: JobBuilder)
        ensures
            r@ == (JobSpec { width: Some(width), ..self@ }),
    {
        let mut r = self;
        r.width = Some(width);
        r
    }

    /// Sets the height of the picture.
    pub fn height(self, height: u32) -> (r: JobBuilder)
        ensures
            r@ == (JobSpec { height: Some(height), ..self@ }),
    {
        let mut r = self;
        r.height = Some(height);
        r
    }

    /// Builds the final list of command-line arguments based on the
    /// configured options.
    pub fn build_args(&self) -> (args: Vec<String>)
        ensures
            args.deep_view() == job_args(self@),
    {
        let mut args: Vec<String> = Vec::new();
        assert(args.deep_view() =~= Seq::<Seq<char>>::empty());

        // Input argument
        match &self.input {
            InputSource::File(path) => push_pair(&mut args, "-i", path.clone()),
            InputSource::Stdin => push_pair(&mut args, "-i", String::from_str("pipe:0")),
        }

        // Output argument
        match &self.output {
            OutputDestination::File(path) => push_pair(&mut args, "-o", path.clone()),
            OutputDestination::Stdout => push_pair(&mut args, "-o", String::from_str("pipe:1")),
        }
        assert(args.deep_view() =~= seq![
            "-i"@,
            input_text(self@.input),
            "-o"@,
            output_text(self@.output),
        ]);

        // Optional arguments
        push_text_option(&mut args, "--preset", &self.preset);
        push_text_option(&mut args, "--encoder", &self.video_codec);
        push_number_option(&mut args, "--width", self.width);
        push_number_option(&mut args, "--height", self.height);
        // Audio codecs, by ascending track number
        self.audio_codecs.push_args(&mut args);
        push_text_option(&mut args, "--quality", &self.quality);
        push_text_option(&mut args, "--format", &self.format);

        let subtitle = match &self.subtitle_selection {
            Some(SubtitleSelection::Tracks(tracks)) => Some(tracks_text(tracks)),
            Some(SubtitleSelection::Scan) => Some(String::from_str("scan")),
            None => None,
        };
        push_text_option(&mut args, "--subtitle", &subtitle);

        if self.subtitle_langs.len() > 0 {
            push_pair(&mut args, "--subtitle-lang-list", join(&self.subtitle_langs, ","));
        } else {
            assert(args.deep_view() =~= args.deep_view() + lang_args(self@.subtitle_langs));
        }

        let burned = match self.subtitle_burned {
            Some(SubtitleBurnMode::Native) => Some(String::from_str("native")),
            Some(SubtitleBurnMode::Disabled) => Some(String::from_str("none")),
            None => None,
        };
        push_text_option(&mut args, "--subtitle-burned", &burned);

        push_number_option(&mut args, "--subtitle-forced", self.subtitle_forced);

        let default = match self.subtitle_default {
            Some(SubtitleDefaultMode::Track(track)) => Some(decimal_string(track as u64)),
            Some(SubtitleDefaultMode::Disabled) => Some(String::from_str("none")),
            None => None,
        };
        push_text_option(&mut args, "--subtitle-default", &default);

        push_text_option(&mut args, "--srt-file", &self.srt_file);
        push_text_option(&mut args, "--ssa-file", &self.ssa_file);

        args
    }

    /// Plans the launch of the process for this job: the executable, the
    /// arguments, and the standard streams that the source and the
    /// destination of the job ask for.
    pub fn create_process(&self) -> (plan: LaunchPlan)
        ensures
            plan@ == process_launch(self@),
    {
        LaunchPlan {
            program: self.handbrake_path.clone(),
            args: self.build_args(),
            stdin: match self.input {
                InputSource::Stdin => StdioMode::Piped,
                InputSource::File(_) => StdioMode::Inherit,
            },
            stdout: match self.output {
                OutputDestination::Stdout => StdioMode::Piped,
                OutputDestination::File(_) => StdioMode::Inherit,
            },
            stderr: StdioMode::Inherit,
            new_process_group: true,
        }
    }

    /// Plans the launch of the job as one that is not monitored: only the
    /// final exit status is wanted of it.
    pub fn status_plan(&self) -> (plan: LaunchPlan)
        ensures
            plan@ == status_launch(self@),
    {
        let mut plan = self.create_process();
        plan.stderr = StdioMode::Inherit;
        plan
    }

    /// Plans the launch of the job as a monitored one: its standard output
    /// and standard error are read and made into events.
    pub fn start_plan(&self) -> (plan: LaunchPlan)
        ensures
            plan@ == start_launch(self@),
    {
        let mut plan = self.create_process();
        plan.stdout = StdioMode::Piped;
        plan.stderr = StdioMode::Piped;
        plan
    }
}

} // verus!
