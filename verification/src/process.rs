//! The rules of process supervision: in which order a supervised tool is started,
//! read, awaited and judged, how its lines are tagged, and how its end becomes a result.
use vstd::prelude::*;
use vstd::string::*;
use crate::error::CustomError;
use crate::text::{push_owned, strs};

verus! {

/// One of the two output streams of a tool.
#[derive(Debug, Clone, Copy, PartialEq, Eq, Structural)]
pub enum StreamKind {
    Stdout,
    Stderr,
}

/// The level at which a line is logged.
#[derive(Debug, Clone, Copy, PartialEq, Eq, Structural)]
pub enum LogLevel {
    Info,
    Error,
}

/// The level of the lines of a stream: informational for the standard output,
/// error for the standard error.
pub fn level_for(stream: StreamKind) -> (level: LogLevel)
    ensures
        level == match stream {
            StreamKind::Stdout => LogLevel::Info,
            StreamKind::Stderr => LogLevel::Error,
        },
{
    match stream {
        StreamKind::Stdout => LogLevel::Info,
        StreamKind::Stderr => LogLevel::Error,
    }
}

/// A line of a tool with the tag of its stage in front.
pub open spec fn tagged(prefix: Seq<char>, line: Seq<char>) -> Seq<char> {
    prefix + " "@ + line
}

/// Puts the tag of a stage in front of a line of a tool.
pub fn tag_line(prefix: &str, line: &str) -> (out: String)
    ensures
        out@ == tagged(prefix@, line@),
{
    String::from_str(prefix).concat(" ").concat(line)
}

/// Tags every line of a stream, in order.
pub fn tag_lines(prefix: &str, lines: &Vec<String>) -> (out: Vec<String>)
    ensures
        strs(out@) == Seq::new(lines@.len(), |i: int| tagged(prefix@, lines@[i]@)),
{
    let mut out: Vec<String> = Vec::new();
    let mut i: usize = 0;
    assert(strs(out@) =~= Seq::new(0, |i: int| tagged(prefix@, lines@[i]@)));
    while i < lines.len()
        invariant
            i <= lines@.len(),
            strs(out@) == Seq::new(i as nat, |k: int| tagged(prefix@, lines@[k]@)),
        decreases lines.len() - i,
    {
        push_owned(&mut out, tag_line(prefix, lines[i].as_str()));
        assert(strs(out@) =~= Seq::new((i + 1) as nat, |k: int| tagged(prefix@, lines@[k]@)));
        i = i + 1;
    }
    out
}

/// What is known of one supervised invocation once it is over.
#[derive(Debug)]
pub struct CompileJobResult {
    /// The command that was run.
    pub command: String,
    /// The exit code, if the tool exited with one.
    pub exit_status: Option<i32>,
    /// The lines the tool wrote to its standard output.
    pub stdout_lines: Vec<String>,
    /// The lines the tool wrote to its standard error.
    pub stderr_lines: Vec<String>,
}

impl CompileJobResult {
    /// The tool ended with the exit code zero.
    pub fn succeeded(&self) -> (r: bool)
        ensures
            r == (self.exit_status == Some(0i32)),
    {
        match self.exit_status {
            Some(code) => code == 0,
            None => false,
        }
    }
}

/// How a supervised invocation ended.
#[derive(Debug)]
pub enum ProcessOutcome {
    /// The tool could not be started.
    SpawnFailed(String),
    /// The tool was started but could not be awaited.
    WaitFailed(String),
    /// The tool ran to its end.
    Exited { success: bool },
}

/// The detail of the error for a tool that could not be started.
pub open spec fn spawn_failed_message(command: Seq<char>, reason: Seq<char>) -> Seq<char> {
    "Failed to start "@ + command + ": "@ + reason
}

/// The detail of the error for a tool that could not be awaited.
pub open spec fn wait_failed_message(command: Seq<char>, reason: Seq<char>) -> Seq<char> {
    "Failed to wait for "@ + command + ": "@ + reason
}

/// The detail of the error for a tool that ended with a failure.
pub open spec fn exit_failed_message(command: Seq<char>) -> Seq<char> {
    command + " failed"@
}

/// Turns the end of a supervised invocation into a result: a process error when the
/// tool could not be started or awaited, a build error that names the command when
/// it ended with a failure, success otherwise.
pub fn exit_result(command: &str, outcome: &ProcessOutcome) -> (r: Result<(), CustomError>)
    ensures
        r is Ok <==> outcome == (ProcessOutcome::Exited { success: true }),
        outcome matches ProcessOutcome::SpawnFailed(reason) ==> (r matches Err(e) && e
            is ProcessError && e.detail() == spawn_failed_message(command@, reason@)),
        outcome matches ProcessOutcome::WaitFailed(reason) ==> (r matches Err(e) && e
            is ProcessError && e.detail() == wait_failed_message(command@, reason@)),
        outcome == (ProcessOutcome::Exited { success: false }) ==> (r matches Err(e) && e
            is BuildError && e.detail() == exit_failed_message(command@)),
{
    match outcome {
        ProcessOutcome::SpawnFailed(reason) => Err(
            CustomError::ProcessError(
                String::from_str("Failed to start ").concat(command).concat(": ").concat(
                    reason.as_str(),
                ),
            ),
        ),
        ProcessOutcome::WaitFailed(reason) => Err(
            CustomError::ProcessError(
                String::from_str("Failed to wait for ").concat(command).concat(": ").concat(
                    reason.as_str(),
                ),
            ),
        ),
        ProcessOutcome::Exited { success } => {
            if *success {
                Ok(())
            } else {
                Err(CustomError::BuildError(String::from_str(command).concat(" failed")))
            }
        },
    }
}

/// One thing the supervisor does.
#[derive(Debug, Clone, Copy, PartialEq, Eq, Structural)]
pub enum SupervisorAction {
    /// Start the tool with both output streams captured.
    Spawn,
    /// Start the reader of a stream.
    StartReader(StreamKind),
    /// Wait for the tool to exit.
    Wait,
    /// Wait for the reader of a stream to finish.
    JoinReader(StreamKind),
    /// Look at the exit status.
    Inspect,
}

/// Everything the supervisor does for one invocation, in order: the tool is started,
/// both readers are started, only then the exit is awaited, both readers are joined,
/// and only then the exit status is looked at.
pub open spec fn protocol() -> Seq<SupervisorAction> {
    seq![
        SupervisorAction::Spawn,
        SupervisorAction::StartReader(StreamKind::Stdout),
        SupervisorAction::StartReader(StreamKind::Stderr),
        SupervisorAction::Wait,
        SupervisorAction::JoinReader(StreamKind::Stdout),
        SupervisorAction::JoinReader(StreamKind::Stderr),
        SupervisorAction::Inspect,
    ]
}

/// What the supervisor does after `done` actions succeeded, or `None` when the
/// invocation is over.
pub fn next_action(done: usize) -> (action: Option<SupervisorAction>)
    ensures
        action == if done < protocol().len() {
            Some(protocol()[done as int])
        } else {
            None
        },
{
    if done == 0 {
        Some(SupervisorAction::Spawn)
    } else if done == 1 {
        Some(SupervisorAction::StartReader(StreamKind::Stdout))
    } else if done == 2 {
        Some(SupervisorAction::StartReader(StreamKind::Stderr))
    } else if done == 3 {
        Some(SupervisorAction::Wait)
    } else if done == 4 {
        Some(SupervisorAction::JoinReader(StreamKind::Stdout))
    } else if done == 5 {
        Some(SupervisorAction::JoinReader(StreamKind::Stderr))
    } else if done == 6 {
        Some(SupervisorAction::Inspect)
    } else {
        None
    }
}

/// Both readers run before the exit is awaited, and both are joined before the exit
/// status is looked at.
pub proof fn lemma_readers_frame_the_wait(i: int, stream: StreamKind)
    requires
        0 <= i < protocol().len(),
    ensures
        protocol()[i] == SupervisorAction::Wait ==> exists|s: int|
            0 <= s < i && protocol()[s] == SupervisorAction::StartReader(stream),
        protocol()[i] == SupervisorAction::Inspect ==> exists|j: int|
            0 <= j < i && protocol()[j] == SupervisorAction::JoinReader(stream),
        protocol()[i] == SupervisorAction::JoinReader(stream) ==> exists|w: int|
            0 <= w < i && protocol()[w] == SupervisorAction::Wait,
{
    let p = protocol();
    match stream {
        StreamKind::Stdout => {
            assert(p[1] == SupervisorAction::StartReader(StreamKind::Stdout));
            assert(p[4] == SupervisorAction::JoinReader(StreamKind::Stdout));
        },
        StreamKind::Stderr => {
            assert(p[2] == SupervisorAction::StartReader(StreamKind::Stderr));
            assert(p[5] == SupervisorAction::JoinReader(StreamKind::Stderr));
        },
    }
    assert(p[3] == SupervisorAction::Wait);
}

/// The detail of an error with the captured lines of a tool attached, each on a
/// line of its own.
pub open spec fn with_lines(detail: Seq<char>, lines: Seq<Seq<char>>, n: nat) -> Seq<char>
    decreases n,
{
    if n == 0 {
        detail
    } else {
        with_lines(detail, lines, (n - 1) as nat) + "\n"@ + lines[n - 1]
    }
}

/// Attaches the captured lines of a tool to a build error, so that the failure can
/// be diagnosed from the error alone. Errors of other kinds stay as they are.
pub fn attach_output(error: CustomError, lines: &Vec<String>) -> (out: CustomError)
    ensures
        error is BuildError ==> out is BuildError && out.detail() == with_lines(
            error.detail(),
            strs(lines@),
            lines@.len(),
        ),
        !(error is BuildError) ==> out == error,
{
    match error {
        CustomError::BuildError(detail) => {
            let mut text = detail;
            let mut i: usize = 0;
            while i < lines.len()
                invariant
                    i <= lines@.len(),
                    text@ == with_lines(detail@, strs(lines@), i as nat),
                decreases lines.len() - i,
            {
                assert(strs(lines@)[i as int] == lines@[i as int]@);
                text = text.concat("\n").concat(lines[i].as_str());
                i = i + 1;
            }
            CustomError::BuildError(text)
        },
        other => other,
    }
}

} // verus!
