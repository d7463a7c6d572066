use handbrake::demux::{
    chunk_events, config_event, done_event, read_failure_event, Demux, StderrRead,
};
use handbrake::error::{FailureKind, OsFailure};
use handbrake::event::{
    AudioConfig, AudioTrackConfig, Config, DestinationConfig, Hundredths, JobEvent, JobFailure,
    Log, Progress, RawExitStatus, SourceConfig, VideoConfig,
};
use handbrake::progress::ProgressPattern;

fn sample_config() -> Config {
    Config {
        source: SourceConfig { path: String::from("/in.mkv"), title: 1 },
        destination: DestinationConfig { file: String::from("/out.mp4"), mux: String::from("mp4") },
        video: VideoConfig {
            encoder: String::from("x264"),
            quality_bits: 22.0f64.to_bits(),
            preset: Some(String::from("fast")),
        },
        audio_config: AudioConfig {
            audio_list: vec![AudioTrackConfig { encoder_name: String::from("aac"), bitrate: 160 }],
        },
    }
}

fn refuse(_: &str) -> Result<Config, String> {
    Err(String::from("expected value at line 1 column 1"))
}

fn log(text: &str) -> JobEvent {
    JobEvent::Log(Log { message: String::from(text) })
}

#[test]
fn full_progress_line_yields_progress_with_all_fields() {
    let pattern = ProgressPattern::new().unwrap();
    let mut demux = Demux::new();
    let line = b"Encoding: task 1 of 1, 12.34 % (120.00 fps, avg 110.00 fps, ETA 00h01m30s)";
    let events = demux.on_stdout(&pattern, line.to_vec(), Some(line.len()));
    assert_eq!(
        events,
        vec![JobEvent::Progress(Progress {
            percentage: Hundredths { value: 1234 },
            fps: Hundredths { value: 12000 },
            avg_fps: Some(Hundredths { value: 11000 }),
            eta: Some(90),
        })]
    );
    assert!(demux.is_active());
}

#[test]
fn percentage_only_line_has_no_average_and_no_eta() {
    let pattern = ProgressPattern::new().unwrap();
    let mut demux = Demux::new();
    let line = b"Encoding: task 1 of 1, 56.78 %";
    let events = demux.on_stdout(&pattern, line.to_vec(), Some(line.len()));
    assert_eq!(
        events,
        vec![JobEvent::Progress(Progress {
            percentage: Hundredths { value: 5678 },
            fps: Hundredths { value: 0 },
            avg_fps: None,
            eta: None,
        })]
    );
}

#[test]
fn plain_chunk_is_one_fragment_with_the_same_bytes() {
    let pattern = ProgressPattern::new().unwrap();
    let mut demux = Demux::new();
    let chunk = vec![0u8, 159, 146, 150, 13];
    let events = demux.on_stdout(&pattern, chunk.clone(), Some(chunk.len()));
    assert_eq!(events, vec![JobEvent::Fragment(chunk)]);
}

#[test]
fn bytes_around_a_progress_line_follow_it_as_a_fragment() {
    let pattern = ProgressPattern::new().unwrap();
    let mut demux = Demux::new();
    let chunk = b"\nEncoding: task 1 of 1, 1.00 %\r".to_vec();
    let events = demux.on_stdout(&pattern, chunk, Some(31));
    assert_eq!(
        events,
        vec![
            JobEvent::Progress(Progress {
                percentage: Hundredths { value: 100 },
                fps: Hundredths { value: 0 },
                avg_fps: None,
                eta: None,
            }),
            JobEvent::Fragment(b"\n\r".to_vec()),
        ]
    );
}

#[test]
fn every_progress_line_of_a_chunk_is_cut_out_of_the_fragment() {
    let pattern = ProgressPattern::new().unwrap();
    let chunk = b"aEncoding: task 1 of 1, 1.00 %bEncoding: task 1 of 1, 2.00 %c";
    assert_eq!(pattern.strip(chunk), b"abc".to_vec());
    assert_eq!(pattern.strip(b"no progress here"), b"no progress here".to_vec());
    assert_eq!(pattern.strip(b""), Vec::<u8>::new());
}

#[test]
fn end_of_output_stream_moves_the_job_on_and_later_reads_are_ignored() {
    let pattern = ProgressPattern::new().unwrap();
    let mut demux = Demux::new();
    let events = demux.on_stdout(&pattern, Vec::new(), Some(0));
    assert_eq!(events, vec![JobEvent::Fragment(Vec::new())]);
    assert!(!demux.is_active());
    assert!(!demux.is_closed());
    assert_eq!(demux.on_stdout(&pattern, b"late".to_vec(), Some(4)), Vec::new());
    assert_eq!(demux.on_stderr(StderrRead::Line(String::from("late")), refuse), None);
}

#[test]
fn failed_output_read_is_not_the_end_of_the_stream() {
    let pattern = ProgressPattern::new().unwrap();
    let mut demux = Demux::new();
    let events = demux.on_stdout(&pattern, Vec::new(), None);
    assert_eq!(events, vec![JobEvent::Fragment(Vec::new())]);
    assert!(demux.is_active());
}

#[test]
fn diagnostic_lines_outside_a_block_are_logged() {
    let mut demux = Demux::new();
    assert_eq!(
        demux.on_stderr(StderrRead::Line(String::from("[12:00:00] hb_init: starting")), refuse),
        Some(log("[12:00:00] hb_init: starting"))
    );
    assert_eq!(demux.on_stderr(StderrRead::Line(String::from("}")), refuse), Some(log("}")));
    assert_eq!(demux.on_stderr(StderrRead::Closed, refuse), None);
    assert!(demux.is_active());
}

#[test]
fn config_block_is_decoded_once_and_yields_one_config_event() {
    let mut demux = Demux::new();
    let mut seen: Vec<String> = Vec::new();
    let lines = ["[12:00:00] json job:", "{", " \"Source\": {}", "}"];
    let mut events = Vec::new();
    for line in lines {
        let event = demux.on_stderr(StderrRead::Line(String::from(line)), |text: &str| {
            seen.push(String::from(text));
            Ok(sample_config())
        });
        events.extend(event);
    }
    assert_eq!(seen, vec![String::from("{\n \"Source\": {}\n}\n")]);
    assert_eq!(events, vec![JobEvent::Config(sample_config())]);
    assert_eq!(
        demux.on_stderr(StderrRead::Line(String::from("after")), refuse),
        Some(log("after"))
    );
}

#[test]
fn malformed_config_block_yields_one_log_and_no_config() {
    let mut demux = Demux::new();
    let lines = ["x json job:", "{", "oops", "}"];
    let mut events = Vec::new();
    for line in lines {
        events.extend(demux.on_stderr(StderrRead::Line(String::from(line)), refuse));
    }
    assert_eq!(
        events,
        vec![log("JSON Parse Error: expected value at line 1 column 1, \n{\noops\n}\n")]
    );
}

#[test]
fn block_buffer_is_kept_from_one_block_to_the_next() {
    let mut demux = Demux::new();
    let mut seen: Vec<String> = Vec::new();
    for line in ["json job:", "}", "json job:", "}"] {
        let _ = demux.on_stderr(StderrRead::Line(String::from(line)), |text: &str| {
            seen.push(String::from(text));
            Err(String::from("e"))
        });
    }
    assert_eq!(seen, vec![String::from("}\n"), String::from("}\n}\n")]);
}

#[test]
fn failed_diagnostic_read_is_logged() {
    let mut demux = Demux::new();
    assert_eq!(
        demux.on_stderr(StderrRead::Failed(String::from("Custom { kind: InvalidData }")), refuse),
        Some(log("Failed to read the line: Custom { kind: InvalidData }"))
    );
    assert_eq!(
        read_failure_event("boom"),
        log("Failed to read the line: boom")
    );
}

#[test]
fn done_is_emitted_exactly_once_and_last() {
    let pattern = ProgressPattern::new().unwrap();
    let mut demux = Demux::new();
    let mut all: Vec<JobEvent> = Vec::new();
    all.extend(demux.on_exit(Ok(RawExitStatus { raw: 0 })));
    assert!(all.is_empty());
    all.extend(demux.on_stderr(StderrRead::Line(String::from("log")), refuse));
    all.extend(demux.on_stdout(&pattern, b"Encoding: task 1 of 1, 5.00 %\r".to_vec(), Some(30)));
    all.extend(demux.on_stdout(&pattern, b"data".to_vec(), Some(4)));
    all.extend(demux.on_stdout(&pattern, Vec::new(), Some(0)));
    all.extend(demux.on_exit(Ok(RawExitStatus { raw: 256 })));
    assert!(demux.is_closed());
    all.extend(demux.on_exit(Ok(RawExitStatus { raw: 0 })));
    all.extend(demux.on_stdout(&pattern, b"x".to_vec(), Some(1)));
    all.extend(demux.on_stderr(StderrRead::Line(String::from("y")), refuse));
    let dones = all.iter().filter(|e| matches!(e, JobEvent::Done(_))).count();
    assert_eq!(dones, 1);
    assert_eq!(all.last(), Some(&JobEvent::Done(Ok(RawExitStatus { raw: 256 }))));
    assert_eq!(all.len(), 6);
}

#[test]
fn failed_wait_is_a_done_event_with_the_failure() {
    let failure = OsFailure {
        kind: FailureKind::Other,
        message: String::from("No child processes (os error 10)"),
        os_code: Some(10),
    };
    assert_eq!(
        done_event(Err(failure)),
        JobEvent::Done(Err(JobFailure {
            message: String::from("Failed: No child processes (os error 10)"),
            exit_code: Some(10),
        }))
    );
    assert_eq!(
        done_event(Ok(RawExitStatus { raw: 0 })),
        JobEvent::Done(Ok(RawExitStatus { raw: 0 }))
    );
}

#[test]
fn events_for_a_chunk_follow_what_was_found() {
    let progress = Progress {
        percentage: Hundredths { value: 1 },
        fps: Hundredths { value: 2 },
        avg_fps: None,
        eta: Some(3),
    };
    assert_eq!(chunk_events(vec![1, 2], None), vec![JobEvent::Fragment(vec![1, 2])]);
    assert_eq!(
        chunk_events(vec![1, 2], Some((progress, Vec::new()))),
        vec![JobEvent::Progress(progress)]
    );
    assert_eq!(
        chunk_events(vec![1, 2], Some((progress, vec![9]))),
        vec![JobEvent::Progress(progress), JobEvent::Fragment(vec![9])]
    );
    assert_eq!(config_event(Ok(sample_config()), "{}"), JobEvent::Config(sample_config()));
    assert_eq!(
        config_event(Err(String::from("bad")), "{}\n"),
        log("JSON Parse Error: bad, \n{}\n")
    );
}
