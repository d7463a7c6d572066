//! Canned results of commands: a stand-in for running the transcoder.
//!
//! Expectations are kept in a [`MockRegistry`] that the test owns. An
//! expectation names a program and its arguments and the result that the
//! command is to give; a [`MockCommand`] with the same program and arguments
//! gives that result.

use vstd::prelude::*;
use vstd::slice::slice_to_vec;
use vstd::string::StringExecFns;

use crate::text::{push_text, same_text};
use crate::CommandOutput;

verus! {

/// Mock result that will be returned by the command
#[derive(Debug, Clone)]
pub struct MockResult {
    pub exit_code: i32,
    pub stdout: Vec<u8>,
    pub stderr: Vec<u8>,
}

/// The mathematical value of a [`MockResult`].
pub struct MockResultView {
    pub exit_code: i32,
    pub stdout: Seq<u8>,
    pub stderr: Seq<u8>,
}

impl View for MockResult {
    type V = MockResultView;

    open spec fn view(&self) -> MockResultView {
        MockResultView { exit_code: self.exit_code, stdout: self.stdout@, stderr: self.stderr@ }
    }
}

impl MockResult {
    /// The result of a command that succeeded and wrote nothing.
    pub fn success() -> (r: MockResult)
        ensures
            r@ == (MockResultView { exit_code: 0, stdout: Seq::empty(), stderr: Seq::empty() }),
    {
        MockResult { exit_code: 0, stdout: Vec::new(), stderr: Vec::new() }
    }

    /// The result of a command that failed with `exit_code` and wrote
    /// nothing.
    pub fn failure(exit_code: i32) -> (r: MockResult)
        ensures
            r@ == (MockResultView { exit_code, stdout: Seq::empty(), stderr: Seq::empty() }),
    {
        MockResult { exit_code, stdout: Vec::new(), stderr: Vec::new() }
    }

    /// The same result with `stdout` as what the command wrote to its
    /// standard output.
    pub fn with_stdout(self, stdout: &[u8]) -> (r: MockResult)
        ensures
            r@ == (MockResultView { stdout: stdout@, ..self@ }),
    {
        MockResult { exit_code: self.exit_code, stdout: slice_to_vec(stdout), stderr: self.stderr }
    }

    /// The same result with `stderr` as what the command wrote to its
    /// standard error.
    pub fn with_stderr(self, stderr: &[u8]) -> (r: MockResult)
        ensures
            r@ == (MockResultView { stderr: stderr@, ..self@ }),
    {
        MockResult { exit_code: self.exit_code, stdout: self.stdout, stderr: slice_to_vec(stderr) }
    }

    /// What running a command with this result gives: the exit code 0 where
    /// the result is a success and 1 where it is not, and what was written.
    pub fn output(&self) -> (r: CommandOutput)
        ensures
            r.code == Some(mock_exit_code(self.exit_code)),
            r.stdout@ == self.stdout@,
            r.stderr@ == self.stderr@,
    {
        CommandOutput {
            code: Some(if self.exit_code == 0 { 0 } else { 1 }),
            stdout: slice_to_vec(self.stdout.as_slice()),
            stderr: slice_to_vec(self.stderr.as_slice()),
        }
    }
}

/// The exit code of a mocked command: 0 for a success, 1 for any failure.
pub open spec fn mock_exit_code(exit_code: i32) -> i32 {
    if exit_code == 0 {
        0
    } else {
        1
    }
}

/// One expectation: a program, its arguments, and the result to give.
struct Expectation {
    program: String,
    args: Vec<String>,
    result: MockResult,
}

/// The expectations of a test, in the order in which they were set up.
pub struct MockRegistry {
    expectations: Vec<Expectation>,
}

/// An expectation as mathematical values: the program, the arguments, the
/// result.
pub type ExpectationView = (Seq<char>, Seq<Seq<char>>, MockResultView);

/// The result that the expectations hold for a program with arguments: that
/// of the expectation for them that was set up last, if there is one.
pub open spec fn expected(
    expectations: Seq<ExpectationView>,
    program: Seq<char>,
    args: Seq<Seq<char>>,
) -> Option<MockResultView>
    decreases expectations.len(),
{
    if expectations.len() == 0 {
        None
    } else if expectations.last().0 == program && expectations.last().1 == args {
        Some(expectations.last().2)
    } else {
        expected(expectations.drop_last(), program, args)
    }
}

fn same_args(a: &Vec<String>, b: &Vec<String>) -> (r: bool)
    ensures
        r == (a.deep_view() == b.deep_view()),
{
    if a.len() != b.len() {
        assert(a.deep_view().len() != b.deep_view().len());
        return false;
    }
    let mut i: usize = 0;
    while i < a.len()
        invariant
            i <= a.len(),
            a.len() == b.len(),
            forall|k: int| 0 <= k < i ==> a[k]@ == b[k]@,
        decreases a.len() - i,
    {
        if !same_text(a[i].as_str(), b[i].as_str()) {
            assert(a.deep_view()[i as int] != b.deep_view()[i as int]);
            return false;
        }
        i = i + 1;
    }
    assert(a.deep_view() =~= b.deep_view());
    true
}

impl View for MockRegistry {
    type V = Seq<ExpectationView>;

    closed spec fn view(&self) -> Seq<ExpectationView> {
        Seq::new(
            self.expectations@.len(),
            |i: int|
                (
                    self.expectations@[i].program@,
                    self.expectations@[i].args.deep_view(),
                    self.expectations@[i].result@,
                ),
        )
    }
}

impl MockRegistry {
    /// A registry without expectations.
    pub fn new() -> (r: MockRegistry)
        ensures
            r@ == Seq::<ExpectationView>::empty(),
    {
        let r = MockRegistry { expectations: Vec::new() };
        assert(r@ =~= Seq::<ExpectationView>::empty());
        r
    }

    /// The result expected of a program with arguments, if any.
    fn lookup(&self, program: &str, args: &Vec<String>) -> (r: Option<&MockResult>)
        ensures
            match r {
                Some(result) => expected(self@, program@, args.deep_view()) == Some(result@),
                None => expected(self@, program@, args.deep_view()) is None,
            },
    {
        let mut i: usize = self.expectations.len();
        assert(self@.take(i as int) =~= self@);
        while i > 0
            invariant
                i <= self.expectations.len(),
                expected(self@, program@, args.deep_view()) == expected(
                    self@.take(i as int),
                    program@,
                    args.deep_view(),
                ),
            decreases i,
        {
            let candidate = &self.expectations[i - 1];
            let ghost prefix = self@.take(i as int);
            assert(prefix.last() == self@[i - 1]);
            assert(prefix.drop_last() =~= self@.take(i - 1));
            if same_text(candidate.program.as_str(), program) && same_args(&candidate.args, args) {
                return Some(&candidate.result);
            }
            i = i - 1;
        }
        proof {
            assert(self@.take(0) =~= Seq::<ExpectationView>::empty());
        }
        None
    }
}

/// Builder for setting up mock expectations
pub struct MockCommandExpect {
    program: String,
    args: Vec<String>,
}

impl MockCommandExpect {
    /// The program of the expectation.
    pub closed spec fn program_text(&self) -> Seq<char> {
        self.program@
    }

    /// The arguments of the expectation.
    pub closed spec fn arg_texts(&self) -> Seq<Seq<char>> {
        self.args.deep_view()
    }

    /// Start building a mock expectation
    pub fn when(program: &str) -> (r: MockCommandExpect)
        ensures
            r.program_text() == program@,
            r.arg_texts() == Seq::<Seq<char>>::empty(),
    {
        let r = MockCommandExpect { program: String::from_str(program), args: Vec::new() };
        assert(r.arg_texts() =~= Seq::<Seq<char>>::empty());
        r
    }

    /// Expects exactly these arguments, in place of any given before.
    pub fn with_args(self, args: Vec<String>) -> (r: MockCommandExpect)
        ensures
            r.program_text() == self.program_text(),
            r.arg_texts() == args.deep_view(),
    {
        MockCommandExpect { program: self.program, args }
    }

    /// Expects one more argument.
    pub fn with_arg(self, arg: &str) -> (r: MockCommandExpect)
        ensures
            r.program_text() == self.program_text(),
            r.arg_texts() == self.arg_texts().push(arg@),
    {
        let mut r = self;
        push_text(&mut r.args, String::from_str(arg));
        r
    }

    /// Clear all mock expectations (useful for test cleanup)
    pub fn clear_all_expectations(registry: &mut MockRegistry)
        ensures
            final(registry)@ == Seq::<ExpectationView>::empty(),
    {
        registry.expectations = Vec::new();
        assert(registry@ =~= Seq::<ExpectationView>::empty());
    }

    /// Sets up the expectation in `registry`: the command with this program
    /// and these arguments gives `result` from now on.
    pub fn will_return(self, registry: &mut MockRegistry, result: MockResult)
        ensures
            final(registry)@ == old(registry)@.push((self.program_text(), self.arg_texts(), result@)),
    {
        let ghost entry = (self.program_text(), self.arg_texts(), result@);
        registry.expectations.push(Expectation { program: self.program, args: self.args, result });
        assert(registry@ =~= old(registry)@.push(entry));
    }
}

/// Mock implementation of a command
pub struct MockCommand {
    program: String,
    args: Vec<String>,
}

impl MockCommand {
    /// The program of the command.
    pub closed spec fn program_text(&self) -> Seq<char> {
        self.program@
    }

    /// The arguments of the command.
    pub closed spec fn arg_texts(&self) -> Seq<Seq<char>> {
        self.args.deep_view()
    }

    /// Creates a new MockCommand
    pub fn new(program: &str) -> (r: MockCommand)
        ensures
            r.program_text() == program@,
            r.arg_texts() == Seq::<Seq<char>>::empty(),
    {
        let r = MockCommand { program: String::from_str(program), args: Vec::new() };
        assert(r.arg_texts() =~= Seq::<Seq<char>>::empty());
        r
    }

    /// Add an argument
    pub fn arg(self, arg: &str) -> (r: MockCommand)
        ensures
            r.program_text() == self.program_text(),
            r.arg_texts() == self.arg_texts().push(arg@),
    {
        let mut r = self;
        push_text(&mut r.args, String::from_str(arg));
        r
    }

    /// Add multiple arguments
    pub fn args(self, args: Vec<String>) -> (r: MockCommand)
        ensures
            r.program_text() == self.program_text(),
            r.arg_texts() == self.arg_texts() + args.deep_view(),
    {
        let mut r = self;
        let mut i: usize = 0;
        assert(r.arg_texts() =~= self.arg_texts() + args.deep_view().take(0));
        while i < args.len()
            invariant
                i <= args.len(),
                r.program_text() == self.program_text(),
                r.arg_texts() == self.arg_texts() + args.deep_view().take(i as int),
            decreases args.len() - i,
        {
            push_text(&mut r.args, args[i].clone());
            assert(args.deep_view().take(i + 1) =~= args.deep_view().take(i as int).push(
                args[i as int]@,
            ));
            assert(r.arg_texts() =~= self.arg_texts() + args.deep_view().take(i + 1));
            i = i + 1;
        }
        assert(args.deep_view().take(i as int) =~= args.deep_view());
        r
    }

    /// Execute command and capture output: the output of the result that
    /// `registry` expects of this program with these arguments, or nothing
    /// where it expects none.
    pub fn output(&self, registry: &MockRegistry) -> (r: Option<CommandOutput>)
        ensures
            match expected(registry@, self.program_text(), self.arg_texts()) {
                Some(result) => r matches Some(output) && output.code == Some(
                    mock_exit_code(result.exit_code),
                ) && output.stdout@ == result.stdout && output.stderr@ == result.stderr,
                None => r is None,
            },
    {
        match registry.lookup(self.program.as_str(), &self.args) {
            Some(result) => Some(result.output()),
            None => None,
        }
    }
}

} // verus!
