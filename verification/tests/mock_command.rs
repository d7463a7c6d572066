use handbrake::testing::mock_command::{MockCommand, MockCommandExpect, MockRegistry, MockResult};

#[test]
fn test_basic_mock_command() {
    let mut registry = MockRegistry::new();
    // Clear any existing expectations
    MockCommandExpect::clear_all_expectations(&mut registry);

    // Set up expectations
    MockCommandExpect::when("git")
        .with_args(vec![String::from("status"), String::from("--porcelain")])
        .will_return(&mut registry, MockResult::success().with_stdout(b"M  src/lib.rs"));

    // Use the command
    let cmd = MockCommand::new("git").args(vec![String::from("status"), String::from("--porcelain")]);

    let output = cmd.output(&registry).unwrap();
    assert_eq!(output.stdout, b"M  src/lib.rs");
    assert_eq!(output.code, Some(0));
}

#[test]
fn test_failure_scenario() {
    let mut registry = MockRegistry::new();
    MockCommandExpect::clear_all_expectations(&mut registry);

    MockCommandExpect::when("git")
        .with_arg("push")
        .will_return(&mut registry, MockResult::failure(1).with_stderr(b"Permission denied"));

    let cmd = MockCommand::new("git").arg("push");

    let output = cmd.output(&registry).unwrap();
    assert_eq!(output.stderr, b"Permission denied");
    assert_ne!(output.code, Some(0));
}

#[test]
#[should_panic(expected = "No mock result configured")]
fn test_unmatched_command_panics() {
    let mut registry = MockRegistry::new();
    MockCommandExpect::clear_all_expectations(&mut registry);

    let cmd = MockCommand::new("git").arg("unknown-command");

    match cmd.output(&registry) {
        Some(_) => {}
        None => panic!("No mock result configured for command: git"),
    }
}

#[test]
fn test_multiple_calls_same_result() {
    let mut registry = MockRegistry::new();
    MockCommandExpect::clear_all_expectations(&mut registry);

    MockCommandExpect::when("echo")
        .with_arg("hello")
        .will_return(&mut registry, MockResult::success().with_stdout(b"hello\n"));

    // First call
    let cmd1 = MockCommand::new("echo").arg("hello");
    let output1 = cmd1.output(&registry).unwrap();

    // Second call
    let cmd2 = MockCommand::new("echo").arg("hello");
    let output2 = cmd2.output(&registry).unwrap();

    // Both should return the same result
    assert_eq!(output1.stdout, b"hello\n");
    assert_eq!(output2.stdout, b"hello\n");
    assert_eq!(output1.code, Some(0));
    assert_eq!(output2.code, Some(0));
}

#[test]
fn mock_results_hold_what_they_were_given() {
    let ok = MockResult::success();
    assert_eq!((ok.exit_code, ok.stdout.len(), ok.stderr.len()), (0, 0, 0));
    let bad = MockResult::failure(127).with_stdout(b"out").with_stderr(b"err");
    assert_eq!(bad.exit_code, 127);
    assert_eq!(bad.stdout, b"out");
    assert_eq!(bad.stderr, b"err");
    let replaced = bad.with_stdout(b"again");
    assert_eq!(replaced.stdout, b"again");
    assert_eq!(replaced.stderr, b"err");
    assert_eq!(replaced.output().code, Some(1));
    assert_eq!(MockResult::failure(-3).output().code, Some(1));
}

#[test]
fn the_expectation_set_up_last_is_the_one_that_counts() {
    let mut registry = MockRegistry::new();
    MockCommandExpect::when("hb").with_arg("-v").will_return(&mut registry, MockResult::failure(2));
    MockCommandExpect::when("hb")
        .with_arg("-v")
        .will_return(&mut registry, MockResult::success().with_stdout(b"second"));
    MockCommandExpect::when("hb").will_return(&mut registry, MockResult::success().with_stdout(b"bare"));
    let found = MockCommand::new("hb").arg("-v").output(&registry).unwrap();
    assert_eq!(found.stdout, b"second");
    assert_eq!(MockCommand::new("hb").output(&registry).unwrap().stdout, b"bare");
    assert!(MockCommand::new("hb").arg("-v").arg("-v").output(&registry).is_none());
    assert!(MockCommand::new("h").arg("-v").output(&registry).is_none());
    MockCommandExpect::clear_all_expectations(&mut registry);
    assert!(MockCommand::new("hb").arg("-v").output(&registry).is_none());
}
