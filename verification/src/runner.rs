//! The decisions of the process runner.
//!
//! Whoever runs the child process waits for its next output line on either
//! stream and for its end, all at once, and hands each thing that happens
//! to `step`. The step says what to send to the observer, which progress
//! to report, and whether the run is over. The run is over when the process
//! has ended and both of its streams are closed; a wait that timed out
//! after the process has ended closes the streams. A read that fails is
//! reported and the run goes on, but a stream whose reads fail several
//! times in a row, with no line in between, counts as closed.

use vstd::prelude::*;
use vstd::string::*;
use crate::error::DownloadError;
use crate::requests::ExecuteCommandRequest;
use crate::yt_dlp::{Invocation, InvocationView};
use crate::platform::texts;
use crate::progress::{
    chars_of,
    find_word,
    find_word_end,
    is_space,
    lemma_skip_spaces,
    lemma_word_end,
    line_report,
    parse_line,
    skip_spaces,
    word_end,
};
use crate::service::{exit_outcome, outcome_of_exit};
use crate::task::{idle_speed, FULL_PROGRESS};
use crate::text::{append_integer, integer_text};

verus! {

/// The words of `s` from index `i` on.
pub open spec fn words_from(s: Seq<char>, i: int) -> Seq<Seq<char>>
    decreases s.len() - i,
{
    let a = skip_spaces(s, i);
    if i < 0 || a >= s.len() {
        Seq::<Seq<char>>::empty()
    } else {
        proof {
            lemma_skip_spaces(s, i);
            lemma_word_end(s, a + 1);
        }
        seq![s.subrange(a, word_end(s, a))] + words_from(s, word_end(s, a))
    }
}

/// The words of `s`: its longest runs of characters that are no white
/// space, in their order.
pub open spec fn words(s: Seq<char>) -> Seq<Seq<char>> {
    words_from(s, 0)
}

/// Every word has at least one character and holds no white space.
pub proof fn lemma_words_are_words(s: Seq<char>, i: int)
    requires
        0 <= i <= s.len(),
    ensures
        forall|k: int|
            0 <= k < words_from(s, i).len() ==> {
                &&& (#[trigger] words_from(s, i)[k]).len() > 0
                &&& forall|j: int|
                    0 <= j < words_from(s, i)[k].len() ==> !is_space(
                        #[trigger] words_from(s, i)[k][j],
                    )
            },
    decreases s.len() - i,
{
    lemma_skip_spaces(s, i);
    let a = skip_spaces(s, i);
    if a < s.len() {
        lemma_word_end(s, a);
        lemma_word_end(s, a + 1);
        let b = word_end(s, a);
        lemma_words_are_words(s, b);
        let first = s.subrange(a, b);
        let rest = words_from(s, b);
        assert(words_from(s, i) == seq![first] + rest);
        assert forall|k: int| 0 <= k < words_from(s, i).len() implies {
            &&& (#[trigger] words_from(s, i)[k]).len() > 0
            &&& forall|j: int|
                0 <= j < words_from(s, i)[k].len() ==> !is_space(
                    #[trigger] words_from(s, i)[k][j],
                )
        } by {
            if k == 0 {
                assert(words_from(s, i)[0] == first);
                assert forall|j: int| 0 <= j < first.len() implies !is_space(
                    #[trigger] first[j],
                ) by {
                    assert(first[j] == s[a + j]);
                }
            } else {
                assert(words_from(s, i)[k] == rest[k - 1]);
            }
        }
    }
}

/// The name under which output is sent to the observer.
pub open spec fn output_event() -> Seq<char> {
    "terminal-output"@
}

/// How a line of the error stream is sent to the observer.
pub open spec fn error_line_text(line: Seq<char>) -> Seq<char> {
    "错误: "@ + line
}

/// What the observer is told when a stream could not be read.
pub open spec fn read_error_text() -> Seq<char> {
    "读取输出错误"@
}

/// What the observer is told when the process has ended.
pub open spec fn exit_text(success: bool, code: int) -> Seq<char> {
    if success {
        "命令执行成功"@
    } else {
        "命令执行失败，退出码: "@ + integer_text(code)
    }
}

/// One of the two output streams of a process.
#[derive(Clone, Copy, Debug, PartialEq, Eq, Structural)]
pub enum StreamKind {
    Stdout,
    Stderr,
}

/// How a process ended.
#[derive(Clone, Copy, Debug, PartialEq, Eq, Structural)]
pub struct ExitReport {
    pub success: bool,
    pub code: i32,
}

/// How many reads of a stream may fail in a row before the stream counts
/// as closed.
pub const READ_FAILURE_LIMIT: u32 = 3;

/// What the runner knows of its process.
#[derive(Clone, Copy, Debug, PartialEq, Eq, Structural)]
pub struct RunnerState {
    pub stdout_open: bool,
    pub stderr_open: bool,
    /// How many reads of the output stream failed since the last line.
    pub stdout_failures: u32,
    /// How many reads of the error stream failed since the last line.
    pub stderr_failures: u32,
    pub exit: Option<ExitReport>,
}

impl RunnerState {
    /// Whether the run is over: the process has ended and both streams are
    /// closed.
    pub open spec fn is_finished(self) -> bool {
        self.exit is Some && !self.stdout_open && !self.stderr_open
    }

    /// What the run reports when it is over.
    pub open spec fn result(self) -> Option<Result<(), DownloadError>> {
        if self.is_finished() {
            Some(exit_outcome(self.exit->0.success, self.exit->0.code))
        } else {
            None
        }
    }

    /// The state after the given stream was closed.
    pub open spec fn closed(self, stream: StreamKind) -> RunnerState {
        match stream {
            StreamKind::Stdout => RunnerState { stdout_open: false, ..self },
            StreamKind::Stderr => RunnerState { stderr_open: false, ..self },
        }
    }

    /// Whether the given stream is open.
    pub open spec fn is_open(self, stream: StreamKind) -> bool {
        match stream {
            StreamKind::Stdout => self.stdout_open,
            StreamKind::Stderr => self.stderr_open,
        }
    }

    /// How many reads of the given stream failed since its last line.
    pub open spec fn failures(self, stream: StreamKind) -> u32 {
        match stream {
            StreamKind::Stdout => self.stdout_failures,
            StreamKind::Stderr => self.stderr_failures,
        }
    }

    /// The state after a line was read from the given stream: the stream
    /// has no failed reads to count any more.
    pub open spec fn line_read(self, stream: StreamKind) -> RunnerState {
        match stream {
            StreamKind::Stdout => RunnerState { stdout_failures: 0, ..self },
            StreamKind::Stderr => RunnerState { stderr_failures: 0, ..self },
        }
    }

    /// The state after a read from the given stream failed: one more
    /// failure is counted, and with the last one allowed the stream is
    /// closed.
    pub open spec fn read_failed(self, stream: StreamKind) -> RunnerState {
        if self.failures(stream) + 1 >= READ_FAILURE_LIMIT {
            match stream {
                StreamKind::Stdout => RunnerState {
                    stdout_open: false,
                    stdout_failures: READ_FAILURE_LIMIT,
                    ..self
                },
                StreamKind::Stderr => RunnerState {
                    stderr_open: false,
                    stderr_failures: READ_FAILURE_LIMIT,
                    ..self
                },
            }
        } else {
            match stream {
                StreamKind::Stdout => RunnerState {
                    stdout_failures: (self.stdout_failures + 1) as u32,
                    ..self
                },
                StreamKind::Stderr => RunnerState {
                    stderr_failures: (self.stderr_failures + 1) as u32,
                    ..self
                },
            }
        }
    }

    /// The state after a wait that timed out.
    pub open spec fn timed_out(self) -> RunnerState {
        if self.exit is Some {
            RunnerState { stdout_open: false, stderr_open: false, ..self }
        } else {
            self
        }
    }

    /// The state after the process ended. The first end counts.
    pub open spec fn exited(self, report: ExitReport) -> RunnerState {
        if self.exit is Some {
            self
        } else {
            RunnerState { exit: Some(report), ..self }
        }
    }

    /// The state of a runner that has just started its process.
    pub fn new() -> (r: Self)
        ensures
            r == (RunnerState {
                stdout_open: true,
                stderr_open: true,
                stdout_failures: 0,
                stderr_failures: 0,
                exit: None,
            }),
            !r.is_finished(),
    {
        RunnerState {
            stdout_open: true,
            stderr_open: true,
            stdout_failures: 0,
            stderr_failures: 0,
            exit: None,
        }
    }

    fn after_line(self, stream: StreamKind) -> (r: Self)
        ensures
            r == self.line_read(stream),
    {
        match stream {
            StreamKind::Stdout => RunnerState { stdout_failures: 0, ..self },
            StreamKind::Stderr => RunnerState { stderr_failures: 0, ..self },
        }
    }

    fn after_failed_read(self, stream: StreamKind) -> (r: Self)
        ensures
            r == self.read_failed(stream),
    {
        match stream {
            StreamKind::Stdout => if self.stdout_failures >= READ_FAILURE_LIMIT - 1 {
                RunnerState { stdout_open: false, stdout_failures: READ_FAILURE_LIMIT, ..self }
            } else {
                RunnerState { stdout_failures: self.stdout_failures + 1, ..self }
            },
            StreamKind::Stderr => if self.stderr_failures >= READ_FAILURE_LIMIT - 1 {
                RunnerState { stderr_open: false, stderr_failures: READ_FAILURE_LIMIT, ..self }
            } else {
                RunnerState { stderr_failures: self.stderr_failures + 1, ..self }
            },
        }
    }

    /// Tells whether the run is over.
    pub fn finished(&self) -> (r: bool)
        ensures
            r == self.is_finished(),
    {
        self.exit.is_some() && !self.stdout_open && !self.stderr_open
    }

    /// What the run reports: success exactly if the process ended with
    /// success, else its exit code; nothing while the run is not over.
    pub fn outcome(&self) -> (r: Option<Result<(), DownloadError>>)
        ensures
            r == self.result(),
            r is Some <==> self.is_finished(),
            r matches Some(report) ==> (report is Ok <==> self.exit->0.success),
    {
        if !self.finished() {
            return None;
        }
        match self.exit {
            Some(report) => Some(outcome_of_exit(report.success, report.code)),
            None => None,
        }
    }
}

/// Something that happened to the process.
#[derive(Debug)]
pub enum RunnerEvent {
    /// A line was read from a stream.
    Line { stream: StreamKind, text: String },
    /// A stream came to its end.
    Closed { stream: StreamKind },
    /// A read from a stream failed.
    ReadError { stream: StreamKind },
    /// Nothing happened within the time allowed for one wait.
    Timeout,
    /// The process ended.
    Exited { report: ExitReport },
}

/// The mathematical value of a message to the observer.
pub struct SinkEventView {
    pub name: Seq<char>,
    pub payload: Seq<char>,
}

/// A message to the observer: it is sent and never answered.
#[derive(Debug)]
pub struct SinkEvent {
    pub name: String,
    pub payload: String,
}

impl View for SinkEvent {
    type V = SinkEventView;

    open spec fn view(&self) -> SinkEventView {
        SinkEventView { name: self.name@, payload: self.payload@ }
    }
}

/// The mathematical value of an optional message.
pub open spec fn optional_event(o: Option<SinkEvent>) -> Option<SinkEventView> {
    match o {
        Some(e) => Some(e@),
        None => None,
    }
}

/// The mathematical value of an optional progress report.
pub open spec fn optional_progress(o: Option<(u32, String)>) -> Option<(nat, Seq<char>)> {
    match o {
        Some(p) => Some((p.0 as nat, p.1@)),
        None => None,
    }
}

/// A message with output for the observer.
pub open spec fn output_message(payload: Seq<char>) -> SinkEventView {
    SinkEventView { name: output_event(), payload }
}

/// The state after an event. A run that is over stays as it is.
pub open spec fn next_state(state: RunnerState, event: RunnerEvent) -> RunnerState {
    if state.is_finished() {
        state
    } else {
        match event {
            RunnerEvent::Line { stream, .. } => state.line_read(stream),
            RunnerEvent::Closed { stream } => state.closed(stream),
            RunnerEvent::ReadError { stream } => state.read_failed(stream),
            RunnerEvent::Timeout => state.timed_out(),
            RunnerEvent::Exited { report } => state.exited(report),
        }
    }
}

/// What the observer is told of an event: each line of either stream, those
/// of the error stream marked as such; that a read failed; how the process
/// ended. A run that is over tells nothing more.
pub open spec fn message_of(state: RunnerState, event: RunnerEvent) -> Option<SinkEventView> {
    if state.is_finished() {
        None
    } else {
        match event {
            RunnerEvent::Line { stream, text } => match stream {
                StreamKind::Stdout => Some(output_message(text@)),
                StreamKind::Stderr => Some(output_message(error_line_text(text@))),
            },
            RunnerEvent::Closed { .. } => None,
            RunnerEvent::ReadError { .. } => Some(output_message(read_error_text())),
            RunnerEvent::Timeout => None,
            RunnerEvent::Exited { report } => if state.exit is Some {
                None
            } else {
                Some(output_message(exit_text(report.success, report.code as int)))
            },
        }
    }
}

/// The progress that an event reports: that of a line of the output stream
/// with a percentage, with the line's speed or else the idle speed.
pub open spec fn progress_of_event(state: RunnerState, event: RunnerEvent) -> Option<
    (nat, Seq<char>),
> {
    if state.is_finished() {
        None
    } else {
        match event {
            RunnerEvent::Line { stream, text } => if stream == StreamKind::Stdout {
                match line_report(text@).0 {
                    Some(p) => Some(
                        (
                            p,
                            match line_report(text@).1 {
                                Some(speed) => speed,
                                None => idle_speed(),
                            },
                        ),
                    ),
                    None => None,
                }
            } else {
                None
            },
            _ => None,
        }
    }
}

/// What the runner does about an event.
#[derive(Debug)]
pub struct RunnerStep {
    /// What the runner knows afterwards.
    pub state: RunnerState,
    /// What to send to the observer.
    pub message: Option<SinkEvent>,
    /// The progress to report, in hundredths of a percent, with the speed.
    pub progress: Option<(u32, String)>,
    /// The report of the run, once it is over.
    pub outcome: Option<Result<(), DownloadError>>,
}

/// A finished run stays finished, tells nothing more and keeps its report.
pub proof fn lemma_finished_run_stays(state: RunnerState, event: RunnerEvent)
    requires
        state.is_finished(),
    ensures
        next_state(state, event) == state,
        message_of(state, event) is None,
        progress_of_event(state, event) is None,
        next_state(state, event).result() == state.result(),
{
}

/// The report of a run is success exactly if its process ended with
/// success, and the first end that was seen is the one that counts.
pub proof fn lemma_report_follows_exit(state: RunnerState, event: RunnerEvent)
    ensures
        state.result() matches Some(r) ==> (r is Ok <==> state.exit->0.success),
        state.result() matches Some(r) ==> (r matches Err(e) ==> e == DownloadError::ExitFailure(
            state.exit->0.code,
        )),
        state.exit is Some ==> next_state(state, event).exit == state.exit,
{
}

/// No event opens a stream again, and no line is lost: while the run is
/// not over, each line is sent on.
pub proof fn lemma_streams_only_close(state: RunnerState, event: RunnerEvent)
    ensures
        next_state(state, event).stdout_open ==> state.stdout_open,
        next_state(state, event).stderr_open ==> state.stderr_open,
        !state.is_finished() && event is Line ==> message_of(state, event) is Some,
{
}

/// A stream whose reads fail as often in a row as the limit allows is
/// closed, whatever was counted before; a line in between starts the count
/// anew and closes nothing.
pub proof fn lemma_failing_stream_is_closed(state: RunnerState, stream: StreamKind)
    ensures
        !state.read_failed(stream).read_failed(stream).read_failed(stream).is_open(stream),
        state.line_read(stream).failures(stream) == 0,
        state.line_read(stream).is_open(stream) == state.is_open(stream),
        state.line_read(stream).read_failed(stream).is_open(stream) == state.is_open(stream),
{
}

/// Decides what an event means for the run.
pub fn step(state: RunnerState, event: RunnerEvent) -> (r: RunnerStep)
    ensures
        r.state == next_state(state, event),
        optional_event(r.message) == message_of(state, event),
        optional_progress(r.progress) == progress_of_event(state, event),
        r.progress matches Some(p) ==> p.0 <= FULL_PROGRESS,
        r.outcome == next_state(state, event).result(),
{
    if state.finished() {
        return RunnerStep { state, message: None, progress: None, outcome: state.outcome() };
    }
    match event {
        RunnerEvent::Line { stream, text } => match stream {
            StreamKind::Stdout => {
                let (progress, speed) = parse_line(text.as_str());
                let report = match progress {
                    Some(p) => Some(
                        (
                            p,
                            match speed {
                                Some(s) => s,
                                None => "0 KB/s".to_string(),
                            },
                        ),
                    ),
                    None => None,
                };
                RunnerStep {
                    state: state.after_line(stream),
                    message: Some(SinkEvent { name: "terminal-output".to_string(), payload: text }),
                    progress: report,
                    outcome: None,
                }
            },
            StreamKind::Stderr => {
                let mut payload = "错误: ".to_string();
                payload.append(text.as_str());
                RunnerStep {
                    state: state.after_line(stream),
                    message: Some(SinkEvent { name: "terminal-output".to_string(), payload }),
                    progress: None,
                    outcome: None,
                }
            },
        },
        RunnerEvent::Closed { stream } => {
            let next = match stream {
                StreamKind::Stdout => RunnerState { stdout_open: false, ..state },
                StreamKind::Stderr => RunnerState { stderr_open: false, ..state },
            };
            RunnerStep { state: next, message: None, progress: None, outcome: next.outcome() }
        },
        RunnerEvent::ReadError { stream } => {
            let next = state.after_failed_read(stream);
            RunnerStep {
                state: next,
                message: Some(
                    SinkEvent {
                        name: "terminal-output".to_string(),
                        payload: "读取输出错误".to_string(),
                    },
                ),
                progress: None,
                outcome: next.outcome(),
            }
        },
        RunnerEvent::Timeout => {
            let next = if state.exit.is_some() {
                RunnerState { stdout_open: false, stderr_open: false, ..state }
            } else {
                state
            };
            RunnerStep { state: next, message: None, progress: None, outcome: next.outcome() }
        },
        RunnerEvent::Exited { report } => {
            if state.exit.is_some() {
                return RunnerStep { state, message: None, progress: None, outcome: None };
            }
            let next = RunnerState { exit: Some(report), ..state };
            let payload = if report.success {
                "命令执行成功".to_string()
            } else {
                let mut text = "命令执行失败，退出码: ".to_string();
                append_integer(&mut text, report.code as i64);
                text
            };
            RunnerStep {
                state: next,
                message: Some(SinkEvent { name: "terminal-output".to_string(), payload }),
                progress: None,
                outcome: next.outcome(),
            }
        },
    }
}

/// The words of a command line.
pub fn split_words(command: &str) -> (r: Vec<String>)
    ensures
        texts(r@) == words(command@),
{
    let chars = chars_of(command);
    let mut out: Vec<String> = Vec::new();
    let mut i: usize = 0;
    assert(texts(out@) =~= Seq::<Seq<char>>::empty());
    loop
        invariant
            i <= chars@.len(),
            chars@ == command@,
            texts(out@) + words_from(command@, i as int) == words(command@),
        decreases chars@.len() - i,
    {
        let a = find_word(&chars, i);
        if a >= chars.len() {
            assert(words_from(command@, i as int) =~= Seq::<Seq<char>>::empty());
            assert(texts(out@) + Seq::<Seq<char>>::empty() =~= texts(out@));
            return out;
        }
        let b = find_word_end(&chars, a);
        proof {
            lemma_word_end(command@, a + 1);
        }
        let ghost before = out@;
        out.push(command.substring_char(a, b).to_string());
        proof {
            let word = command@.subrange(a as int, b as int);
            assert(texts(out@) =~= texts(before).push(word));
            assert(words_from(command@, i as int) == seq![word] + words_from(command@, b as int));
            assert(texts(out@) + words_from(command@, b as int) =~= texts(before) + (seq![word]
                + words_from(command@, b as int)));
        }
        i = b;
    }
}

/// The program and the arguments that a command line names: its first word
/// and the words after it. A command line without a word names neither.
pub fn split_command(command: &str) -> (r: Result<(String, Vec<String>), DownloadError>)
    ensures
        r is Ok <==> words(command@).len() > 0,
        r matches Ok(parts) ==> parts.0@ == words(command@)[0] && texts(parts.1@) == words(
            command@,
        ).subrange(1, words(command@).len() as int),
        r matches Err(e) ==> e == DownloadError::EmptyCommand,
{
    let mut parts = split_words(command);
    if parts.len() == 0 {
        return Err(DownloadError::EmptyCommand);
    }
    let ghost all = parts@;
    let program = parts.remove(0);
    assert(texts(parts@) =~= texts(all).subrange(1, all.len() as int));
    Ok((program, parts))
}

/// The call that a command line stands for, if it names a program.
pub open spec fn command_call(command: Seq<char>) -> Option<InvocationView> {
    if words(command).len() > 0 {
        Some(
            InvocationView {
                program: words(command)[0],
                arguments: words(command).subrange(1, words(command).len() as int),
            },
        )
    } else {
        None
    }
}

/// Runs command lines for the user.
#[derive(Clone, Copy, Debug)]
pub struct CommandService;

impl CommandService {
    /// Runs command lines for the user.
    pub fn new() -> (r: Self) {
        CommandService
    }

    /// The call to make for a command line: its first word is the program,
    /// the words after it are the arguments. An empty command line is
    /// refused.
    pub fn execute_command(&self, command: &str) -> (r: Result<Invocation, DownloadError>)
        ensures
            match r {
                Ok(call) => command_call(command@) == Some(call@),
                Err(e) => command_call(command@) is None && e == DownloadError::EmptyCommand,
            },
    {
        match split_command(command) {
            Ok((program, arguments)) => Ok(Invocation { program, arguments }),
            Err(e) => Err(e),
        }
    }
}

/// The call to make for a request to run a command line.
pub fn execute_command(request: &ExecuteCommandRequest) -> (r: Result<Invocation, DownloadError>)
    ensures
        match r {
            Ok(call) => command_call(request.command@) == Some(call@),
            Err(e) => command_call(request.command@) is None && e == DownloadError::EmptyCommand,
        },
{
    CommandService::new().execute_command(request.command.as_str())
}

} // verus!
