//! The session: the operator's commands, and what each of them does with the
//! one inferior that a session may hold.

use crate::debugger_command::{command_of, texts, DebuggerCommand};
use crate::inferior::{
    classified, shows_some_frame, Inferior, Status, Symbol, TraceError, WaitEvent,
};
use crate::text::{decimal, push_decimal, split_words, words};
use vstd::prelude::*;
use vstd::string::StringExecFns;

verus! {

/// What the session asks of its caller after a command.
#[derive(Debug)]
pub enum Reply {
    /// Show the lines, then ask for the next command.
    Show(Vec<String>),
    /// Show the lines, then spawn the target with these arguments and with
    /// tracing enabled, and hand the outcome to `Debugger::launched`.
    Spawn(Vec<String>, Vec<String>),
    /// Show the lines, then end the session.
    Quit(Vec<String>),
}

impl Reply {
    /// The lines to show, as texts.
    pub open spec fn lines(self) -> Seq<Seq<char>> {
        match self {
            Reply::Show(lines) => lines.deep_view(),
            Reply::Spawn(lines, _) => lines.deep_view(),
            Reply::Quit(lines) => lines.deep_view(),
        }
    }
}

/// The lines are those of a backtrace: at least one, and the line at each
/// index shows a frame with that index, with a symbol that `debug_data`
/// resolves for the frame's address.
pub open spec fn shows_backtrace<D: Fn(u64) -> Symbol>(debug_data: D, lines: Seq<String>) -> bool {
    lines.len() >= 1 && forall|i: int|
        #![trigger lines[i]]
        0 <= i < lines.len() ==> shows_some_frame(debug_data, i as nat, lines[i]@)
}

/// A session of the debugger on one target executable. It holds at most one
/// inferior.
#[derive(Debug)]
pub struct Debugger {
    target: String,
    inferior: Option<Inferior>,
}

/// The line shown where a command needs an inferior and there is none.
pub open spec fn no_target_line() -> Seq<char> {
    "no target running"@
}

/// The line shown where the target could not be started.
pub open spec fn start_failure_line() -> Seq<char> {
    "could not start subprocess"@
}

/// The line shown when a running inferior is ended.
pub open spec fn killing_line(pid: int) -> Seq<char> {
    "Killing running inferior (pid "@ + decimal(pid) + ")"@
}

/// The text of an error.
pub open spec fn error_text(error: TraceError) -> Seq<char> {
    match error {
        TraceError::Os(description) => description@,
        TraceError::UnexpectedStatus => "unexpected wait status"@,
    }
}

/// The line that reports what resuming the inferior of `target` came to: the
/// status line, or the failure with the error's text. `launching` tells the
/// first resumption after a start from a later one.
pub open spec fn resume_line(
    target: Seq<char>,
    launching: bool,
    outcome: Result<Status, TraceError>,
) -> Seq<char> {
    match outcome {
        Ok(status) => status.line(),
        Err(error) => (if launching {
            "failed to start "@
        } else {
            "failed to continue "@
        }) + target + ", err: "@ + error_text(error),
    }
}

/// The line shown where the stack of the inferior could not be walked.
pub open spec fn backtrace_failure_line(error: TraceError) -> Seq<char> {
    "failed to backtrace, error: "@ + error_text(error)
}

/// The inferior that a session holds after a resumption came to `outcome`:
/// none after a terminal status, the same as before otherwise.
pub open spec fn live_after(live: Option<int>, outcome: Result<Status, TraceError>) -> Option<int> {
    match outcome {
        Ok(status) => if status.terminal() {
            None
        } else {
            live
        },
        Err(_) => live,
    }
}

/// The lines that ending the session's inferior may show: none where there
/// is no inferior or where it was gone already, else the one line that names
/// the process.
pub open spec fn teardown_lines(live: Option<int>, lines: Seq<Seq<char>>) -> bool {
    match live {
        None => lines == Seq::<Seq<char>>::empty(),
        Some(pid) => lines == Seq::<Seq<char>>::empty() || lines == seq![killing_line(pid)],
    }
}

/// What the first resumption of a new inferior came to: the inferior with
/// process identifier `pid` was resumed, `line` reports the outcome of that,
/// with a status whose signal is shown by its name, and the session holds
/// the inferior unless it has ended.
pub open spec fn resume_report(target: Seq<char>, pid: int, line: Seq<char>, live: Option<int>) -> bool {
    exists|outcome: Result<Status, TraceError>|
        {
            &&& line == #[trigger] resume_line(target, true, outcome)
            &&& live == live_after(Some(pid), outcome)
            &&& outcome is Ok ==> outcome->Ok_0.signal_known()
        }
}

/// What a launch came to, for a child spawned as `spawned` says: either the
/// launch failed, and the session holds no inferior; or the child was taken
/// over and resumed, `line` reports the outcome of that, and the session
/// holds the child unless it has ended.
pub open spec fn launch_report(
    target: Seq<char>,
    spawned: Option<int>,
    line: Seq<char>,
    live: Option<int>,
) -> bool {
    ||| line == start_failure_line() && live is None
    ||| spawned is Some && resume_report(target, spawned->0, line, live)
}

/// An exit is reported once, with the code that the process exited with:
/// the state change becomes the status of that code, the line shows it, and
/// the session lets go of the inferior, so that nothing more is observed of
/// it. The same holds of a death by signal, with the signal.
pub proof fn end_of_inferior_is_reported_once(
    target: Seq<char>,
    live: Option<int>,
    code: i32,
    signal: i32,
    rip: u64,
)
    ensures
        classified(WaitEvent::Exited(code), rip) == Ok::<Status, TraceError>(Status::Exited(code)),
        classified(WaitEvent::Signaled(signal), rip) == Ok::<Status, TraceError>(
            Status::Signaled(signal),
        ),
        resume_line(target, false, classified(WaitEvent::Exited(code), rip)) == "exited with code "@
            + decimal(code as int),
        resume_line(target, false, classified(WaitEvent::Signaled(signal), rip))
            == "killed by signal "@ + crate::inferior::signal_text(signal),
        live_after(live, classified(WaitEvent::Exited(code), rip)) is None,
        live_after(live, classified(WaitEvent::Signaled(signal), rip)) is None,
{
}

/// After a launch the session holds the child that was just spawned or no
/// inferior at all: never an inferior from before the launch.
pub proof fn launch_leaves_one_inferior_at_most(
    target: Seq<char>,
    spawned: Option<int>,
    line: Seq<char>,
    live: Option<int>,
)
    requires
        launch_report(target, spawned, line, live),
    ensures
        live is None || (spawned is Some && live == spawned),
{
}

/// What a read of the operator's input gave.
#[derive(Clone, Debug, PartialEq, Eq)]
pub enum Input {
    /// A line of text.
    Line(String),
    /// The operator interrupted the prompt.
    Interrupted,
    /// The input has ended.
    Eof,
}

/// What to do after a read of the operator's input.
#[derive(Clone, Debug, PartialEq, Eq)]
pub struct Heard {
    /// Whether the line goes into the history.
    pub remember: bool,
    /// A message to show to the operator.
    pub message: Option<String>,
    /// The command that was read. Without one, the operator is asked again.
    pub command: Option<DebuggerCommand>,
}

/// The meaning of a read of the operator's input. An interrupt is answered
/// with a hint; the end of input counts as `quit`; a line without words is
/// passed over; any other line is remembered, and is a command or is
/// reported as none.
pub open spec fn hears(input: Input, heard: Heard) -> bool {
    match input {
        Input::Interrupted => !heard.remember && heard.command is None && heard.message is Some
            && heard.message->0@ == "Type \"quit\" to exit"@,
        Input::Eof => !heard.remember && heard.message is None && heard.command is Some
            && heard.command->0 is Quit,
        Input::Line(line) => if words(line@).len() == 0 {
            !heard.remember && heard.message is None && heard.command is None
        } else {
            heard.remember && match command_of(words(line@)) {
                Some(command) => heard.message is None && heard.command is Some
                    && heard.command->0@ == command,
                None => heard.command is None && heard.message is Some && heard.message->0@
                    == "Unrecognized command."@,
            }
        },
    }
}

/// Why the debugging symbols of a target could not be loaded.
#[derive(Clone, Debug, PartialEq, Eq)]
pub enum LoadError {
    /// The file could not be opened.
    ErrorOpeningFile,
    /// The file's debug information could not be read; holds the reason.
    DwarfFormatError(String),
}

/// The diagnostic shown where the debugging symbols of `target` could not be
/// loaded.
pub open spec fn load_failure_line(target: Seq<char>, error: LoadError) -> Seq<char> {
    match error {
        LoadError::ErrorOpeningFile => "Could not open file "@ + target,
        LoadError::DwarfFormatError(reason) => "Could not debugging symbols from "@ + target
            + ": "@ + reason@,
    }
}

/// Renders an error's text.
pub fn describe_error(error: &TraceError) -> (s: String)
    ensures
        s@ == error_text(*error),
{
    match error {
        TraceError::Os(description) => description.clone(),
        TraceError::UnexpectedStatus => String::from_str("unexpected wait status"),
    }
}

fn one_line(line: String) -> (lines: Vec<String>)
    ensures
        lines.deep_view() == seq![line@],
{
    let mut lines: Vec<String> = Vec::new();
    lines.push(line);
    assert(lines.deep_view() =~= seq![line@]);
    lines
}

impl Debugger {
    /// The process identifier of the session's inferior, if it holds one.
    pub closed spec fn live(&self) -> Option<int> {
        match self.inferior {
            Some(inferior) => Some(inferior.id()),
            None => None,
        }
    }

    /// The path of the target executable.
    pub closed spec fn target(&self) -> Seq<char> {
        self.target@
    }

    /// Initializes the debugger: a session on `target`, with no inferior.
    pub fn new(target: &str) -> (debugger: Debugger)
        ensures
            debugger.target() == target@,
            debugger.live() is None,
    {
        Debugger { target: String::from_str(target), inferior: None }
    }

    /// The process identifier of the session's inferior, if it holds one.
    pub fn inferior_pid(&self) -> (pid: Option<i32>)
        ensures
            pid is Some <==> self.live() is Some,
            pid matches Some(p) ==> self.live() == Some(p as int),
    {
        match &self.inferior {
            Some(inferior) => Some(inferior.pid()),
            None => None,
        }
    }

    /// Renders the diagnostic for debugging symbols that could not be
    /// loaded. The session cannot start without them.
    pub fn load_failure(target: &str, error: &LoadError) -> (line: String)
        ensures
            line@ == load_failure_line(target@, *error),
    {
        match error {
            LoadError::ErrorOpeningFile => {
                let mut line = String::from_str("Could not open file ");
                line.append(target);
                line
            },
            LoadError::DwarfFormatError(reason) => {
                let mut line = String::from_str("Could not debugging symbols from ");
                line.append(target);
                line.append(": ");
                line.append(reason.as_str());
                line
            },
        }
    }

    /// Decides what to do after a read of the operator's input.
    pub fn get_next_command(input: &Input) -> (heard: Heard)
        ensures
            hears(*input, heard),
    {
        match input {
            Input::Interrupted => Heard {
                remember: false,
                message: Some(String::from_str("Type \"quit\" to exit")),
                command: None,
            },
            Input::Eof => Heard {
                remember: false,
                message: None,
                command: Some(DebuggerCommand::Quit),
            },
            Input::Line(line) => {
                let tokens = split_words(line.as_str());
                if tokens.len() == 0 {
                    return Heard { remember: false, message: None, command: None };
                }
                let mut refs: Vec<&str> = Vec::new();
                let mut i: usize = 0;
                while i < tokens.len()
                    invariant
                        i <= tokens@.len(),
                        refs@.len() == i,
                        forall|k: int| 0 <= k < i ==> (#[trigger] refs@[k])@ == tokens@[k]@,
                    decreases tokens@.len() - i,
                {
                    refs.push(tokens[i].as_str());
                    i += 1;
                }
                assert(texts(refs@) =~= tokens.deep_view());
                match DebuggerCommand::from_tokens(&refs) {
                    Some(command) => Heard { remember: true, message: None, command: Some(command) },
                    None => Heard {
                        remember: true,
                        message: Some(String::from_str("Unrecognized command.")),
                        command: None,
                    },
                }
            },
        }
    }

    /// Renders a status as the line that reports it.
    pub fn output_wait_status(status: Status) -> (line: String)
        ensures
            line@ == status.line(),
    {
        status.render()
    }

    /// Ends the session's inferior, if there is one. Shows the line that
    /// names the process where the process was still there.
    fn discard(&mut self) -> (lines: Vec<String>)
        ensures
            final(self).live() is None,
            final(self).target() == old(self).target(),
            teardown_lines(old(self).live(), lines.deep_view()),
    {
        let mut lines: Vec<String> = Vec::new();
        assert(lines.deep_view() =~= Seq::<Seq<char>>::empty());
        match self.inferior.take() {
            None => {},
            Some(inferior) => {
                let pid = inferior.pid();
                if inferior.teardown() {
                    let mut line = String::from_str("Killing running inferior (pid ");
                    push_decimal(&mut line, pid as i64);
                    line.append(")");
                    lines.push(line);
                    assert(lines.deep_view() =~= seq![killing_line(pid as int)]);
                }
            },
        }
        lines
    }

    /// Takes note of what a resumption of the session's inferior came to:
    /// renders the line that reports it, and lets go of the inferior after a
    /// terminal status, for its process no longer exists.
    pub fn resumed(&mut self, launching: bool, outcome: &Result<Status, TraceError>) -> (line: String)
        ensures
            line@ == resume_line(old(self).target(), launching, *outcome),
            final(self).live() == live_after(old(self).live(), *outcome),
            final(self).target() == old(self).target(),
    {
        match outcome {
            Ok(status) => {
                if status.is_terminal() {
                    self.inferior = None;
                }
                status.render()
            },
            Err(error) => {
                let mut line = if launching {
                    String::from_str("failed to start ")
                } else {
                    String::from_str("failed to continue ")
                };
                line.append(self.target.as_str());
                line.append(", err: ");
                let text = describe_error(error);
                line.append(text.as_str());
                line
            },
        }
    }

    /// Takes note of the spawn that `run` asked for: `spawned` is the process
    /// identifier of the child, or `None` where the target could not be
    /// spawned. The child is taken over once it has reached its first stop,
    /// and is then resumed at once; the last line reports what came of that.
    /// An inferior that the session still held is ended first, so that the
    /// session never holds two. Where the spawn failed, or gave no process
    /// identifier of a process, the last line says that the target could not
    /// be started, and no inferior is held.
    pub fn launched(&mut self, spawned: Option<i32>) -> (lines: Vec<String>)
        ensures
            final(self).target() == old(self).target(),
            lines.deep_view().len() >= 1,
            old(self).live() is None ==> lines.deep_view().len() == 1,
            teardown_lines(old(self).live(), lines.deep_view().drop_last()),
            spawned is None || spawned->0 <= 0 ==> lines.deep_view().last() == start_failure_line()
                && final(self).live() is None,
            launch_report(
                old(self).target(),
                match spawned {
                    Some(pid) => Some(pid as int),
                    None => None,
                },
                lines.deep_view().last(),
                final(self).live(),
            ),
    {
        let started = match spawned {
            Some(pid) => Inferior::new(pid),
            None => None,
        };
        self.started(started)
    }

    /// Takes over the inferior that a launch gave, or takes note that the
    /// launch failed. A new inferior is resumed at once; the last line
    /// reports what came of that, and the session holds the inferior unless
    /// it has ended. Without an inferior, the last line says that the target
    /// could not be started. An inferior that the session still held is
    /// ended first, so that the session never holds two.
    pub fn started(&mut self, inferior: Option<Inferior>) -> (lines: Vec<String>)
        ensures
            final(self).target() == old(self).target(),
            lines.deep_view().len() >= 1,
            old(self).live() is None ==> lines.deep_view().len() == 1,
            teardown_lines(old(self).live(), lines.deep_view().drop_last()),
            inferior is None ==> lines.deep_view().last() == start_failure_line() && final(self).live() is None,
            inferior is Some ==> resume_report(
                old(self).target(),
                inferior->0.id(),
                lines.deep_view().last(),
                final(self).live(),
            ),
    {
        let mut lines = self.discard();
        let ghost torn = lines.deep_view();
        let line = match inferior {
            None => String::from_str("could not start subprocess"),
            Some(started) => {
                let ghost pid = started.id();
                let outcome = started.continues();
                self.inferior = Some(started);
                let line = self.resumed(true, &outcome);
                assert(line@ == resume_line(old(self).target(), true, outcome));
                assert(resume_report(old(self).target(), pid, line@, self.live()));
                line
            },
        };
        lines.push(line);
        assert(lines.deep_view().drop_last() =~= torn);
        assert(lines.deep_view().last() == line@);
        lines
    }

    /// Carries out one command of the operator.
    ///
    /// `quit` ends the session's inferior and the session. `run` ends the
    /// session's inferior and asks for the target to be spawned: no inferior
    /// is held while the new process is made. `continue` resumes the
    /// inferior and reports the status that it reaches. `backtrace` shows
    /// its stack, with the symbols that `debug_data` resolves. The last two
    /// show one fixed line, and change nothing, where there is no inferior.
    pub fn run<D: Fn(u64) -> Symbol>(&mut self, command: DebuggerCommand, debug_data: D) -> (reply:
        Reply)
        requires
            forall|address: u64| call_requires(debug_data, (address,)),
        ensures
            final(self).target() == old(self).target(),
            command is Quit ==> reply is Quit && final(self).live() is None && teardown_lines(
                old(self).live(),
                reply.lines(),
            ),
            command is Run ==> reply is Spawn && reply->Spawn_1 == command->Run_0
                && final(self).live() is None && teardown_lines(old(self).live(), reply.lines()),
            (command is Continue || command is BackTrace) && old(self).live() is None ==> reply is Show
                && reply.lines() == seq![no_target_line()] && final(self).live() is None,
            command is Continue && old(self).live() is Some ==> reply is Show && exists|
                outcome: Result<Status, TraceError>,
            |
                {
                    &&& reply.lines() == seq![
                        #[trigger] resume_line(old(self).target(), false, outcome),
                    ]
                    &&& final(self).live() == live_after(old(self).live(), outcome)
                },
            command is BackTrace && old(self).live() is Some ==> reply is Show && final(self).live()
                == old(self).live() && {
                ||| exists|error: TraceError|
                    reply.lines() == seq![#[trigger] backtrace_failure_line(error)]
                ||| shows_backtrace(debug_data, reply->Show_0@)
            },
    {
        match command {
            DebuggerCommand::Quit => Reply::Quit(self.discard()),
            DebuggerCommand::Run(args) => {
                let lines = self.discard();
                Reply::Spawn(lines, args)
            },
            DebuggerCommand::Continue => {
                let outcome = match &self.inferior {
                    None => {
                        return Reply::Show(one_line(String::from_str("no target running")));
                    },
                    Some(inferior) => inferior.continues(),
                };
                let line = self.resumed(false, &outcome);
                Reply::Show(one_line(line))
            },
            DebuggerCommand::BackTrace => match &self.inferior {
                None => Reply::Show(one_line(String::from_str("no target running"))),
                Some(inferior) => match inferior.print_backtrace(debug_data) {
                    Ok(lines) => {
                        assert(shows_backtrace(debug_data, lines@));
                        Reply::Show(lines)
                    },
                    Err(error) => {
                        let mut line = String::from_str("failed to backtrace, error: ");
                        let text = describe_error(&error);
                        line.append(text.as_str());
                        let reply = Reply::Show(one_line(line));
                        assert(reply.lines() == seq![backtrace_failure_line(error)]);
                        reply
                    },
                },
            },
        }
    }
}

} // verus!
