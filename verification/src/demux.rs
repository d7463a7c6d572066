//! The stream demultiplexer: what a monitored job makes of each read from the
//! two output streams of the transcoder, and of the end of the process.
//!
//! The demultiplexer reads nothing itself. Its owner reads the streams and
//! waits for the process, hands each result to the [`Demux`], and sends on
//! the events that come back, in their order.

use vstd::prelude::*;
use vstd::string::StringExecFns;

use crate::error::OsFailure;
use crate::event::{Config, JobEvent, JobEventView, JobFailure, JobFailureView, Log, Progress, RawExitStatus};
use crate::progress::{progress_captures, progress_event, progress_of, without_progress, ProgressPattern};
use crate::text::{ends_with, has_suffix, same_text};

verus! {

/// The token at the end of the line that opens the configuration block of
/// the diagnostic stream.
pub const CONFIG_MARKER: &'static str = "json job:";

/// The line that closes the configuration block.
pub const CONFIG_END: &'static str = "}";

/// Where a job stands.
#[derive(Debug, Clone, Copy, PartialEq, Eq, Structural)]
pub enum EventStreamState {
    /// The output stream is being read.
    Active,
    /// The output stream has ended; the end of the process is awaited.
    Eof,
    /// The terminal event has been emitted.
    Closed,
}

/// One read from the diagnostic stream.
#[derive(Debug, PartialEq, Eq)]
pub enum StderrRead {
    /// A complete line, without its line break.
    Line(String),
    /// The read failed; the text describes the failure.
    Failed(String),
    /// The stream has ended.
    Closed,
}

/// What a line of the diagnostic stream asks for.
pub enum LineOutcome {
    /// No event.
    Nothing,
    /// A `Log` event with this message.
    Log(Seq<char>),
    /// The decoding of this text as the job configuration.
    Decode(Seq<char>),
}

/// The events that one read from the output stream yields. A chunk without
/// a progress line is one `Fragment` with the bytes of the chunk. A chunk
/// with a progress line is a `Progress` event, followed by a `Fragment` with
/// what the chunk holds around its progress lines, where that is anything.
pub open spec fn stdout_events(chunk: Seq<u8>) -> Seq<JobEventView> {
    match progress_captures(chunk) {
        Some(caps) => found_events(chunk, Some((progress_of(chunk, caps), without_progress(chunk)))),
        None => found_events(chunk, None),
    }
}

/// The events for a chunk in which a progress update was found with the
/// given leftover bytes, or none was.
pub open spec fn found_events(chunk: Seq<u8>, found: Option<(Progress, Seq<u8>)>) -> Seq<
    JobEventView,
> {
    match found {
        Some((progress, rest)) => if rest.len() > 0 {
            seq![JobEventView::Progress(progress), JobEventView::Fragment(rest)]
        } else {
            seq![JobEventView::Progress(progress)]
        },
        None => seq![JobEventView::Fragment(chunk)],
    }
}

/// What a line of the diagnostic stream does: whether a configuration block
/// is being buffered after it, the block buffer after it, and what it asks
/// for.
///
/// A line that ends with [`CONFIG_MARKER`] opens a block and is dropped.
/// Inside a block a line is appended to the buffer with a line break; the
/// line `}` closes the block and asks for the buffer to be decoded. Outside
/// a block a line is logged.
pub open spec fn line_step(in_block: bool, buffer: Seq<char>, line: Seq<char>) -> (
    bool,
    Seq<char>,
    LineOutcome,
) {
    if has_suffix(line, CONFIG_MARKER@) {
        (true, buffer, LineOutcome::Nothing)
    } else if in_block {
        let grown = buffer + line + seq!['\n'];
        if line == CONFIG_END@ {
            (false, grown, LineOutcome::Decode(grown))
        } else {
            (true, grown, LineOutcome::Nothing)
        }
    } else {
        (false, buffer, LineOutcome::Log(line))
    }
}

/// The message of the `Log` event for a configuration block that could not
/// be decoded: the decoder's error, then the text of the block.
pub open spec fn decode_failure_message(error: Seq<char>, block: Seq<char>) -> Seq<char> {
    "JSON Parse Error: "@ + error + ", \n"@ + block
}

/// The event for a decoded configuration block: `Config` with the decoded
/// value, or `Log` with the failure.
pub open spec fn config_event_view(decoded: Result<Config, String>, block: Seq<char>) -> JobEventView {
    match decoded {
        Ok(config) => JobEventView::Config(config),
        Err(error) => JobEventView::Log(decode_failure_message(error@, block)),
    }
}

/// The message of the `Log` event for a failed read from the diagnostic
/// stream.
pub open spec fn read_failure_message(failure: Seq<char>) -> Seq<char> {
    "Failed to read the line: "@ + failure
}

/// The terminal event: `Done` with the exit status, or with a failure whose
/// message is `Failed: ` and the message of the error, and whose code is the
/// error code of the system.
pub open spec fn done_event_view(outcome: Result<RawExitStatus, OsFailure>) -> JobEventView {
    match outcome {
        Ok(status) => JobEventView::Done(Ok(status)),
        Err(failure) => JobEventView::Done(
            Err(JobFailureView { message: "Failed: "@ + failure.message@, exit_code: failure.os_code }),
        ),
    }
}

/// The events of an optional event.
pub open spec fn emitted_by(event: Option<JobEvent>) -> Seq<JobEventView> {
    match event {
        Some(e) => seq![e@],
        None => Seq::empty(),
    }
}

/// Whether an event is the terminal one.
pub open spec fn is_done(event: JobEventView) -> bool {
    event is Done
}

/// The number of terminal events among `events`.
pub open spec fn done_count(events: Seq<JobEventView>) -> nat
    decreases events.len(),
{
    if events.len() == 0 {
        0
    } else {
        done_count(events.drop_last()) + (if is_done(events.last()) {
            1nat
        } else {
            0nat
        })
    }
}

/// What a run of lines of the diagnostic stream does, from a state on:
/// whether a block is being buffered after them, the block buffer after
/// them, and what they ask for, in their order.
pub open spec fn lines_run(in_block: bool, buffer: Seq<char>, lines: Seq<Seq<char>>) -> (
    bool,
    Seq<char>,
    Seq<LineOutcome>,
)
    decreases lines.len(),
{
    if lines.len() == 0 {
        (in_block, buffer, Seq::empty())
    } else {
        let step = line_step(in_block, buffer, lines[0]);
        let rest = lines_run(step.0, step.1, lines.drop_first());
        (
            rest.0,
            rest.1,
            (if step.2 is Nothing {
                Seq::empty()
            } else {
                seq![step.2]
            }) + rest.2,
        )
    }
}

/// The text of the lines of a block: each line with a line break after it.
pub open spec fn block_text(lines: Seq<Seq<char>>) -> Seq<char>
    decreases lines.len(),
{
    if lines.len() == 0 {
        Seq::empty()
    } else {
        lines[0] + seq!['\n'] + block_text(lines.drop_first())
    }
}

/// A chunk of the output stream that holds no progress line yields exactly
/// one event: a `Fragment` with the bytes of the chunk, unchanged.
pub proof fn lemma_plain_chunk_is_one_fragment(chunk: Seq<u8>)
    requires
        progress_captures(chunk) is None,
    ensures
        stdout_events(chunk) == seq![JobEventView::Fragment(chunk)],
{
}

/// A chunk of the output stream never yields the terminal event, and at
/// most one `Fragment`, which follows the `Progress` event where there is
/// one.
pub proof fn lemma_chunk_events_shape(chunk: Seq<u8>)
    ensures
        1 <= stdout_events(chunk).len() <= 2,
        forall|i: int| 0 <= i < stdout_events(chunk).len() ==> !is_done(#[trigger] stdout_events(chunk)[i]),
        stdout_events(chunk).len() == 2 ==> stdout_events(chunk)[0] is Progress && stdout_events(
            chunk,
        )[1] is Fragment,
{
}

proof fn lemma_block_lines_are_buffered(buffer: Seq<char>, body: Seq<Seq<char>>)
    requires
        forall|i: int|
            0 <= i < body.len() ==> !has_suffix(#[trigger] body[i], CONFIG_MARKER@) && body[i]
                != CONFIG_END@,
    ensures
        lines_run(true, buffer, body + seq![CONFIG_END@]) == (
            false,
            buffer + block_text(body + seq![CONFIG_END@]),
            seq![LineOutcome::Decode(buffer + block_text(body + seq![CONFIG_END@]))],
        ),
    decreases body.len(),
{
    reveal_strlit("json job:");
    reveal_strlit("}");
    let lines = body + seq![CONFIG_END@];
    if body.len() == 0 {
        assert(lines =~= seq![CONFIG_END@]);
        assert(lines.drop_first() =~= Seq::<Seq<char>>::empty());
        assert(!has_suffix(CONFIG_END@, CONFIG_MARKER@));
        assert(lines[0] == CONFIG_END@);
        assert(block_text(lines.drop_first()) =~= Seq::<char>::empty());
        assert(block_text(lines) =~= CONFIG_END@ + seq!['\n']);
        let grown = buffer + CONFIG_END@ + seq!['\n'];
        assert(grown =~= buffer + block_text(lines));
        assert(lines_run(false, grown, lines.drop_first()).2 =~= Seq::<LineOutcome>::empty());
        assert(lines_run(true, buffer, lines).2 =~= seq![LineOutcome::Decode(grown)]);
    } else {
        let grown = buffer + body[0] + seq!['\n'];
        assert(lines[0] == body[0]);
        assert(lines.drop_first() =~= body.drop_first() + seq![CONFIG_END@]);
        assert forall|i: int| 0 <= i < body.drop_first().len() implies !has_suffix(
            #[trigger] body.drop_first()[i],
            CONFIG_MARKER@,
        ) && body.drop_first()[i] != CONFIG_END@ by {
            assert(body.drop_first()[i] == body[i + 1]);
        }
        lemma_block_lines_are_buffered(grown, body.drop_first());
        assert(block_text(lines) =~= body[0] + seq!['\n'] + block_text(lines.drop_first()));
        assert(grown + block_text(lines.drop_first()) =~= buffer + block_text(lines));
        assert(lines_run(true, buffer, lines).2 =~= seq![
            LineOutcome::Decode(buffer + block_text(lines)),
        ]);
    }
}

/// A configuration block is decoded exactly once. From any state, the line
/// with the marker, the lines of the block (none of which ends with the
/// marker or is `}`) and the closing `}` together ask for one thing: the
/// decoding of what the buffer held, followed by the lines of the block and
/// the closing line, each with its line break. No line of the block is
/// logged, and the marker line is dropped.
///
/// The event for it is then the one of [`config_event_view`]: one `Config`
/// where the text decodes, one `Log` and no `Config` where it does not.
pub proof fn lemma_config_block_is_decoded_once(
    in_block: bool,
    buffer: Seq<char>,
    marker_line: Seq<char>,
    body: Seq<Seq<char>>,
)
    requires
        has_suffix(marker_line, CONFIG_MARKER@),
        forall|i: int|
            0 <= i < body.len() ==> !has_suffix(#[trigger] body[i], CONFIG_MARKER@) && body[i]
                != CONFIG_END@,
    ensures
        lines_run(in_block, buffer, seq![marker_line] + body + seq![CONFIG_END@]) == (
            false,
            buffer + block_text(body + seq![CONFIG_END@]),
            seq![LineOutcome::Decode(buffer + block_text(body + seq![CONFIG_END@]))],
        ),
{
    let lines = seq![marker_line] + body + seq![CONFIG_END@];
    assert(lines[0] == marker_line);
    assert(lines.drop_first() =~= body + seq![CONFIG_END@]);
    lemma_block_lines_are_buffered(buffer, body);
    assert(lines_run(in_block, buffer, lines).2 =~= seq![
        LineOutcome::Decode(buffer + block_text(body + seq![CONFIG_END@])),
    ]);
}

proof fn lemma_done_count_zero(events: Seq<JobEventView>)
    requires
        forall|i: int| 0 <= i < events.len() ==> !is_done(#[trigger] events[i]),
    ensures
        done_count(events) == 0,
    decreases events.len(),
{
    if events.len() > 0 {
        assert forall|i: int| 0 <= i < events.drop_last().len() implies !is_done(
            #[trigger] events.drop_last()[i],
        ) by {
            assert(events.drop_last()[i] == events[i]);
        }
        lemma_done_count_zero(events.drop_last());
    }
}

/// The terminal event is emitted exactly once per job, and last. While a job
/// is not closed, none of its events is terminal. Once it is closed, exactly
/// one is, and it is the last one, however many events came before it.
pub proof fn lemma_done_once_and_last(state: EventStreamState, emitted: Seq<JobEventView>)
    requires
        done_is_last(state, emitted),
    ensures
        state != EventStreamState::Closed ==> done_count(emitted) == 0,
        state == EventStreamState::Closed ==> done_count(emitted) == 1 && emitted.len() > 0
            && is_done(emitted.last()),
        forall|i: int| 0 <= i < emitted.len() && is_done(#[trigger] emitted[i]) ==> i == emitted.len() - 1,
{
    if emitted.len() > 0 {
        assert forall|i: int| 0 <= i < emitted.drop_last().len() implies !is_done(
            #[trigger] emitted.drop_last()[i],
        ) by {
            assert(emitted.drop_last()[i] == emitted[i]);
        }
        lemma_done_count_zero(emitted.drop_last());
    }
}

/// Builds the events for a chunk in which a progress update was found with
/// the given leftover bytes, or none was.
pub fn chunk_events(chunk: Vec<u8>, found: Option<(Progress, Vec<u8>)>) -> (events: Vec<JobEvent>)
    ensures
        events.deep_view() == found_events(
            chunk@,
            match found {
                Some((progress, rest)) => Some((progress, rest@)),
                None => None,
            },
        ),
{
    let mut events: Vec<JobEvent> = Vec::new();
    match found {
        Some((progress, rest)) => {
            let ghost rest_view = rest@;
            let keep = rest.len() > 0;
            events.push(JobEvent::Progress(progress));
            if keep {
                events.push(JobEvent::Fragment(rest));
                assert(events.deep_view() =~= seq![
                    JobEventView::Progress(progress),
                    JobEventView::Fragment(rest_view),
                ]);
            } else {
                assert(events.deep_view() =~= seq![JobEventView::Progress(progress)]);
            }
        },
        None => {
            let ghost chunk_view = chunk@;
            events.push(JobEvent::Fragment(chunk));
            assert(events.deep_view() =~= seq![JobEventView::Fragment(chunk_view)]);
        },
    }
    events
}

/// Builds the event for a decoded configuration block.
pub fn config_event(decoded: Result<Config, String>, block: &str) -> (event: JobEvent)
    ensures
        event@ == config_event_view(decoded, block@),
{
    match decoded {
        Ok(config) => JobEvent::Config(config),
        Err(error) => {
            let mut message = String::from_str("JSON Parse Error: ");
            message.append(error.as_str());
            message.append(", \n");
            message.append(block);
            JobEvent::Log(Log { message })
        },
    }
}

/// Builds the event for a failed read from the diagnostic stream.
pub fn read_failure_event(failure: &str) -> (event: JobEvent)
    ensures
        event@ == JobEventView::Log(read_failure_message(failure@)),
{
    let mut message = String::from_str("Failed to read the line: ");
    message.append(failure);
    JobEvent::Log(Log { message })
}

/// Builds the terminal event from the result of waiting for the process.
pub fn done_event(outcome: Result<RawExitStatus, OsFailure>) -> (event: JobEvent)
    ensures
        event@ == done_event_view(outcome),
{
    match outcome {
        Ok(status) => JobEvent::Done(Ok(status)),
        Err(failure) => {
            let mut message = String::from_str("Failed: ");
            message.append(failure.message.as_str());
            JobEvent::Done(Err(JobFailure { message, exit_code: failure.os_code }))
        },
    }
}

/// Whether `emitted` can be all the events of a job that stands at `state`:
/// the job is closed exactly when the last event is the terminal one, and no
/// other event is terminal.
pub open spec fn done_is_last(state: EventStreamState, emitted: Seq<JobEventView>) -> bool {
    &&& state == EventStreamState::Closed <==> emitted.len() > 0 && is_done(emitted.last())
    &&& forall|i: int| 0 <= i < emitted.len() - 1 ==> !is_done(#[trigger] emitted[i])
}

struct EventLog {
    state: EventStreamState,
    emitted: Ghost<Seq<JobEventView>>,
}

impl EventLog {
    #[verifier::type_invariant]
    spec fn well_formed(self) -> bool {
        done_is_last(self.state, self.emitted@)
    }
}

/// The state of the demultiplexer of one job.
pub struct Demux {
    in_json_block: bool,
    job_config_buffer: String,
    log: EventLog,
}

impl Demux {
    /// Where the job stands.
    pub closed spec fn state(&self) -> EventStreamState {
        self.log.state
    }

    /// Whether a configuration block is being buffered.
    pub closed spec fn in_json_block(&self) -> bool {
        self.in_json_block
    }

    /// The text buffered for the configuration block.
    pub closed spec fn buffer(&self) -> Seq<char> {
        self.job_config_buffer@
    }

    /// All events emitted so far, in their order.
    pub closed spec fn emitted(&self) -> Seq<JobEventView> {
        self.log.emitted@
    }

    /// What holds of every demultiplexer: the job is closed exactly when its
    /// last event is the terminal one, and no other event is terminal.
    pub open spec fn wf(&self) -> bool {
        done_is_last(self.state(), self.emitted())
    }

    /// A demultiplexer at the start of a job.
    pub fn new() -> (r: Demux)
        ensures
            r.wf(),
            r.state() == EventStreamState::Active,
            !r.in_json_block(),
            r.buffer() == Seq::<char>::empty(),
            r.emitted() == Seq::<JobEventView>::empty(),
    {
        Demux {
            in_json_block: false,
            job_config_buffer: String::new(),
            log: EventLog { state: EventStreamState::Active, emitted: Ghost(Seq::empty()) },
        }
    }

    /// Whether the output stream is still to be read.
    pub fn is_active(&self) -> (r: bool)
        ensures
            r == (self.state() == EventStreamState::Active),
    {
        self.log.state == EventStreamState::Active
    }

    /// Whether the terminal event has been emitted.
    pub fn is_closed(&self) -> (r: bool)
        ensures
            r == (self.state() == EventStreamState::Closed),
    {
        self.log.state == EventStreamState::Closed
    }

    /// Takes one read from the output stream: the bytes read up to and
    /// including the next carriage return, and the number of bytes that the
    /// read reported, `None` where it failed. Returns the events to emit.
    ///
    /// A read of zero bytes is the end of the stream: the job then waits for
    /// the end of the process. After the end of the stream a read is
    /// ignored.
    pub fn on_stdout(
        &mut self,
        pattern: &ProgressPattern,
        chunk: Vec<u8>,
        bytes_read: Option<usize>,
    ) -> (events: Vec<JobEvent>)
        ensures
            final(self).wf(),
            final(self).in_json_block() == old(self).in_json_block(),
            final(self).buffer() == old(self).buffer(),
            final(self).emitted() == old(self).emitted() + events.deep_view(),
            old(self).state() == EventStreamState::Active ==> events.deep_view() == stdout_events(
                chunk@,
            ) && final(self).state() == (if bytes_read == Some(0usize) {
                EventStreamState::Eof
            } else {
                EventStreamState::Active
            }),
            old(self).state() != EventStreamState::Active ==> events@.len() == 0 && final(self).state() == old(self).state(),
    {
        proof {
            use_type_invariant(&self.log);
        }
        if !self.is_active() {
            let events: Vec<JobEvent> = Vec::new();
            assert(self.emitted() + events.deep_view() =~= self.emitted());
            return events;
        }
        let found = match pattern.captures(chunk.as_slice()) {
            Some(caps) => Some(
                (progress_event(chunk.as_slice(), &caps), pattern.strip(chunk.as_slice())),
            ),
            None => None,
        };
        let events = chunk_events(chunk, found);
        let state = match bytes_read {
            Some(0) => EventStreamState::Eof,
            _ => EventStreamState::Active,
        };
        proof {
            let before = self.log.emitted@;
            let after = before + events.deep_view();
            assert forall|i: int| 0 <= i < events.deep_view().len() implies !is_done(
                #[trigger] events.deep_view()[i],
            ) by {}
            assert forall|i: int| 0 <= i < after.len() implies !is_done(#[trigger] after[i]) by {
                if i >= before.len() {
                    assert(after[i] == events.deep_view()[i - before.len()]);
                } else if i < before.len() - 1 {
                    assert(!is_done(before[i]));
                } else {
                    assert(before[i] == before.last());
                }
            }
        }
        self.log = EventLog { state, emitted: Ghost(self.log.emitted@ + events.deep_view()) };
        events
    }

    /// Takes one read from the diagnostic stream and, where a configuration
    /// block ends with it, has `decode` decode the block. Returns the event
    /// to emit, if any.
    ///
    /// The end of the diagnostic stream changes nothing. A failed read is
    /// logged. A line acts as [`line_step`] says; the event for a decoded
    /// block is the one that [`config_event`] builds from what `decode`
    /// returned. After the end of the output stream a read is ignored.
    pub fn on_stderr<F: FnOnce(&str) -> Result<Config, String>>(
        &mut self,
        read: StderrRead,
        decode: F,
    ) -> (event: Option<JobEvent>)
        requires
            forall|text: &str| decode.requires((text,)),
        ensures
            final(self).wf(),
            final(self).state() == old(self).state(),
            final(self).emitted() == old(self).emitted() + emitted_by(event),
            old(self).state() != EventStreamState::Active || read is Closed ==> event is None
                && final(self).in_json_block() == old(self).in_json_block()
                && final(self).buffer() == old(self).buffer(),
            old(self).state() == EventStreamState::Active ==> match read {
                StderrRead::Closed => true,
                StderrRead::Failed(failure) => {
                    &&& emitted_by(event) == seq![
                        JobEventView::Log(read_failure_message(failure@)),
                    ]
                    &&& final(self).in_json_block() == old(self).in_json_block()
                    &&& final(self).buffer() == old(self).buffer()
                },
                StderrRead::Line(line) => {
                    let step = line_step(old(self).in_json_block(), old(self).buffer(), line@);
                    &&& final(self).in_json_block() == step.0
                    &&& final(self).buffer() == step.1
                    &&& match step.2 {
                        LineOutcome::Nothing => event is None,
                        LineOutcome::Log(message) => emitted_by(event) == seq![
                            JobEventView::Log(message),
                        ],
                        LineOutcome::Decode(block) => exists|
                            text: &str,
                            decoded: Result<Config, String>,
                        |
                            text@ == block && decode.ensures((text,), decoded) && emitted_by(event)
                                == seq![config_event_view(decoded, block)],
                    }
                },
            },
    {
        proof {
            use_type_invariant(&self.log);
        }
        if !self.is_active() {
            assert(self.emitted() + emitted_by(None) =~= self.emitted());
            return None;
        }
        let event = match read {
            StderrRead::Closed => None,
            StderrRead::Failed(failure) => Some(read_failure_event(failure.as_str())),
            StderrRead::Line(line) => {
                if ends_with(line.as_str(), CONFIG_MARKER) {
                    self.in_json_block = true;
                    None
                } else if self.in_json_block {
                    let closes = same_text(line.as_str(), CONFIG_END);
                    self.job_config_buffer.append(line.as_str());
                    self.job_config_buffer.append("\n");
                    proof {
                        reveal_strlit("\n");
                        assert(self.job_config_buffer@ =~= old(self).buffer() + line@ + seq!['\n']);
                    }
                    if closes {
                        self.in_json_block = false;
                        let decoded = decode(self.job_config_buffer.as_str());
                        Some(config_event(decoded, self.job_config_buffer.as_str()))
                    } else {
                        None
                    }
                } else {
                    Some(JobEvent::Log(Log { message: line }))
                }
            },
        };
        proof {
            let before = self.log.emitted@;
            let after = before + emitted_by(event);
            assert forall|i: int| 0 <= i < after.len() implies !is_done(#[trigger] after[i]) by {
                if i >= before.len() {
                    assert(after[i] == emitted_by(event)[i - before.len()]);
                } else if i < before.len() - 1 {
                    assert(!is_done(before[i]));
                } else {
                    assert(before[i] == before.last());
                }
            }
        }
        self.log = EventLog {
            state: self.log.state,
            emitted: Ghost(self.log.emitted@ + emitted_by(event)),
        };
        event
    }

    /// Takes the result of waiting for the process. Once the output stream
    /// has ended this returns the terminal event and closes the job; before
    /// its end, and after the terminal event, it returns nothing and changes
    /// nothing.
    pub fn on_exit(&mut self, outcome: Result<RawExitStatus, OsFailure>) -> (event: Option<JobEvent>)
        ensures
            final(self).wf(),
            final(self).in_json_block() == old(self).in_json_block(),
            final(self).buffer() == old(self).buffer(),
            final(self).emitted() == old(self).emitted() + emitted_by(event),
            old(self).state() == EventStreamState::Eof ==> final(self).state()
                == EventStreamState::Closed && emitted_by(event) == seq![done_event_view(outcome)],
            old(self).state() != EventStreamState::Eof ==> final(self).state() == old(self).state()
                && event is None,
    {
        proof {
            use_type_invariant(&self.log);
        }
        if self.log.state != EventStreamState::Eof {
            assert(self.emitted() + emitted_by(None) =~= self.emitted());
            return None;
        }
        let event = done_event(outcome);
        proof {
            let before = self.log.emitted@;
            let after = before.push(event@);
            assert(after =~= before + emitted_by(Some(event)));
            assert forall|i: int| 0 <= i < after.len() - 1 implies !is_done(#[trigger] after[i]) by {
                if i < before.len() - 1 {
                    assert(!is_done(before[i]));
                } else {
                    assert(before[i] == before.last());
                }
            }
        }
        self.log = EventLog {
            state: EventStreamState::Closed,
            emitted: Ghost(self.log.emitted@.push(event@)),
        };
        Some(event)
    }
}

} // verus!
