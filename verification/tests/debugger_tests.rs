use deet::debugger::{describe_error, Debugger, Heard, Input, LoadError, Reply};
use deet::debugger_command::DebuggerCommand;
use deet::inferior::{Inferior, Status, Symbol, TraceError};

/// A process identifier that no process has.
const NOBODY: i32 = i32::MAX;

fn no_symbol(_address: u64) -> Symbol {
    Symbol { function: None, line: None }
}

fn shown(reply: Reply) -> Vec<String> {
    match reply {
        Reply::Show(lines) => lines,
        other => panic!("not shown: {:?}", other),
    }
}

fn phantom() -> Option<Inferior> {
    Inferior::adopt(NOBODY, &Ok(Status::Stopped(5, 0x1000)))
}

#[test]
fn backtrace_without_a_run_prints_no_target_running() {
    let mut debugger = Debugger::new("sample");
    let lines = shown(debugger.run(DebuggerCommand::BackTrace, no_symbol));
    assert_eq!(lines, vec!["no target running"]);
    assert_eq!(debugger.inferior_pid(), None);
}

#[test]
fn continue_without_a_run_prints_no_target_running() {
    let mut debugger = Debugger::new("sample");
    for _ in 0..3 {
        let lines = shown(debugger.run(DebuggerCommand::Continue, no_symbol));
        assert_eq!(lines, vec!["no target running"]);
        assert_eq!(debugger.inferior_pid(), None);
    }
}

#[test]
fn a_target_that_ran_to_completion_is_reported_and_let_go() {
    let mut debugger = Debugger::new("sample");
    let line = debugger.resumed(true, &Ok(Status::Exited(0)));
    assert_eq!(line, "exited with code 0");
    assert_eq!(debugger.inferior_pid(), None);
}

#[test]
fn status_is_rendered_for_the_operator() {
    assert_eq!(Debugger::output_wait_status(Status::Exited(0)), "exited with code 0");
    assert_eq!(Debugger::output_wait_status(Status::Signaled(15)), "killed by signal SIGTERM");
    assert_eq!(
        Debugger::output_wait_status(Status::Stopped(5, 0xdeadbeef)),
        "stopped, signal SIGTRAP, at address 0xdeadbeef"
    );
}

#[test]
fn quit_without_an_inferior_shows_nothing() {
    let mut debugger = Debugger::new("sample");
    for _ in 0..2 {
        match debugger.run(DebuggerCommand::Quit, no_symbol) {
            Reply::Quit(lines) => assert!(lines.is_empty()),
            other => panic!("not quit: {:?}", other),
        }
        assert_eq!(debugger.inferior_pid(), None);
    }
}

#[test]
fn run_asks_for_a_spawn_with_the_arguments() {
    let mut debugger = Debugger::new("sample");
    let args = vec!["one".to_string(), "two".to_string()];
    match debugger.run(DebuggerCommand::Run(args.clone()), no_symbol) {
        Reply::Spawn(lines, to) => {
            assert!(lines.is_empty());
            assert_eq!(to, args);
        },
        other => panic!("not a spawn: {:?}", other),
    }
    assert_eq!(debugger.inferior_pid(), None);
}

#[test]
fn a_failed_spawn_is_reported() {
    let mut debugger = Debugger::new("sample");
    assert_eq!(debugger.launched(None), vec!["could not start subprocess"]);
    assert_eq!(debugger.inferior_pid(), None);
    assert_eq!(debugger.started(None), vec!["could not start subprocess"]);
    assert_eq!(debugger.inferior_pid(), None);
}

#[test]
fn a_child_that_never_stops_is_not_kept() {
    let mut debugger = Debugger::new("sample");
    assert_eq!(debugger.launched(Some(NOBODY)), vec!["could not start subprocess"]);
    assert_eq!(debugger.inferior_pid(), None);
    assert_eq!(debugger.launched(Some(0)), vec!["could not start subprocess"]);
    assert_eq!(debugger.launched(Some(-1)), vec!["could not start subprocess"]);
    assert_eq!(debugger.inferior_pid(), None);
}

#[test]
fn a_failed_first_resumption_names_the_target() {
    let mut debugger = Debugger::new("sample");
    let lines = debugger.started(phantom());
    assert_eq!(lines.len(), 1);
    assert!(lines[0].starts_with("failed to start sample, err: "));
    assert!(lines[0].len() > "failed to start sample, err: ".len());
    assert_eq!(debugger.inferior_pid(), Some(NOBODY));
}

#[test]
fn failures_on_a_held_inferior_are_reported_and_the_session_goes_on() {
    let mut debugger = Debugger::new("./a.out");
    debugger.started(phantom());
    let lines = shown(debugger.run(DebuggerCommand::Continue, no_symbol));
    assert_eq!(lines.len(), 1);
    assert!(lines[0].starts_with("failed to continue ./a.out, err: "));
    assert_eq!(debugger.inferior_pid(), Some(NOBODY));
    let lines = shown(debugger.run(DebuggerCommand::BackTrace, no_symbol));
    assert_eq!(lines.len(), 1);
    assert!(lines[0].starts_with("failed to backtrace, error: "));
    assert_eq!(debugger.inferior_pid(), Some(NOBODY));
}

#[test]
fn run_lets_go_of_the_old_inferior_before_the_spawn() {
    let mut debugger = Debugger::new("sample");
    debugger.started(phantom());
    assert_eq!(debugger.inferior_pid(), Some(NOBODY));
    match debugger.run(DebuggerCommand::Run(Vec::new()), no_symbol) {
        Reply::Spawn(lines, to) => {
            assert!(lines.is_empty());
            assert!(to.is_empty());
        },
        other => panic!("not a spawn: {:?}", other),
    }
    assert_eq!(debugger.inferior_pid(), None);
}

#[test]
fn a_new_inferior_replaces_the_old_one() {
    let mut debugger = Debugger::new("sample");
    debugger.started(phantom());
    debugger.started(Inferior::adopt(NOBODY - 1, &Ok(Status::Stopped(5, 0))));
    assert_eq!(debugger.inferior_pid(), Some(NOBODY - 1));
    debugger.started(None);
    assert_eq!(debugger.inferior_pid(), None);
}

#[test]
fn quit_lets_go_of_the_inferior() {
    let mut debugger = Debugger::new("sample");
    debugger.started(phantom());
    match debugger.run(DebuggerCommand::Quit, no_symbol) {
        Reply::Quit(lines) => assert!(lines.is_empty()),
        other => panic!("not quit: {:?}", other),
    }
    assert_eq!(debugger.inferior_pid(), None);
    match debugger.run(DebuggerCommand::Quit, no_symbol) {
        Reply::Quit(lines) => assert!(lines.is_empty()),
        other => panic!("not quit: {:?}", other),
    }
}

#[test]
fn resumption_outcomes() {
    let mut debugger = Debugger::new("sample");
    debugger.started(phantom());
    let line = debugger.resumed(false, &Ok(Status::Stopped(5, 0x401136)));
    assert_eq!(line, "stopped, signal SIGTRAP, at address 0x401136");
    assert_eq!(debugger.inferior_pid(), Some(NOBODY));
    let line = debugger.resumed(false, &Err(TraceError::Os("ESRCH: No such process".to_string())));
    assert_eq!(line, "failed to continue sample, err: ESRCH: No such process");
    assert_eq!(debugger.inferior_pid(), Some(NOBODY));
    let line = debugger.resumed(true, &Err(TraceError::UnexpectedStatus));
    assert_eq!(line, "failed to start sample, err: unexpected wait status");
    assert_eq!(debugger.inferior_pid(), Some(NOBODY));
    let line = debugger.resumed(false, &Ok(Status::Signaled(9)));
    assert_eq!(line, "killed by signal SIGKILL");
    assert_eq!(debugger.inferior_pid(), None);
}

#[test]
fn exit_code_is_reported_as_it_is() {
    for code in [0, 1, 2, 77, 255] {
        let mut debugger = Debugger::new("sample");
        debugger.started(phantom());
        assert_eq!(
            debugger.resumed(false, &Ok(Status::Exited(code))),
            format!("exited with code {}", code)
        );
        assert_eq!(debugger.inferior_pid(), None);
    }
}

#[test]
fn error_texts() {
    assert_eq!(describe_error(&TraceError::Os("EPERM: denied".to_string())), "EPERM: denied");
    assert_eq!(describe_error(&TraceError::UnexpectedStatus), "unexpected wait status");
}

#[test]
fn load_failures() {
    assert_eq!(
        Debugger::load_failure("sample", &LoadError::ErrorOpeningFile),
        "Could not open file sample"
    );
    assert_eq!(
        Debugger::load_failure("sample", &LoadError::DwarfFormatError("bad magic".to_string())),
        "Could not debugging symbols from sample: bad magic"
    );
}

#[test]
fn commands_from_tokens() {
    assert_eq!(DebuggerCommand::from_tokens(&vec!["q"]), Some(DebuggerCommand::Quit));
    assert_eq!(DebuggerCommand::from_tokens(&vec!["quit"]), Some(DebuggerCommand::Quit));
    assert_eq!(DebuggerCommand::from_tokens(&vec!["r"]), Some(DebuggerCommand::Run(vec![])));
    assert_eq!(
        DebuggerCommand::from_tokens(&vec!["run", "a", "b c", "-x"]),
        Some(DebuggerCommand::Run(vec!["a".to_string(), "b c".to_string(), "-x".to_string()]))
    );
    for verb in ["c", "cont", "continue"] {
        assert_eq!(DebuggerCommand::from_tokens(&vec![verb]), Some(DebuggerCommand::Continue));
    }
    for verb in ["bt", "back", "backtrace"] {
        assert_eq!(
            DebuggerCommand::from_tokens(&vec![verb, "ignored"]),
            Some(DebuggerCommand::BackTrace)
        );
    }
}

#[test]
fn words_that_are_no_verb() {
    for verb in ["", "Quit", "qu", "runs", "b", "continue!", "help", "QUIT"] {
        assert_eq!(DebuggerCommand::from_tokens(&vec![verb]), None);
        assert_eq!(DebuggerCommand::from_tokens(&vec![verb, "run"]), None);
    }
}

#[test]
fn next_command_from_a_line() {
    let heard = Debugger::get_next_command(&Input::Line("  run  1 2\n".to_string()));
    assert_eq!(
        heard,
        Heard {
            remember: true,
            message: None,
            command: Some(DebuggerCommand::Run(vec!["1".to_string(), "2".to_string()])),
        }
    );
    let heard = Debugger::get_next_command(&Input::Line("bt".to_string()));
    assert_eq!(
        heard,
        Heard { remember: true, message: None, command: Some(DebuggerCommand::BackTrace) }
    );
}

#[test]
fn next_command_from_other_input() {
    let blank = Heard { remember: false, message: None, command: None };
    assert_eq!(Debugger::get_next_command(&Input::Line("".to_string())), blank);
    assert_eq!(Debugger::get_next_command(&Input::Line("  \t ".to_string())), blank);
    assert_eq!(
        Debugger::get_next_command(&Input::Line("frobnicate now".to_string())),
        Heard {
            remember: true,
            message: Some("Unrecognized command.".to_string()),
            command: None,
        }
    );
    assert_eq!(
        Debugger::get_next_command(&Input::Interrupted),
        Heard { remember: false, message: Some("Type \"quit\" to exit".to_string()), command: None }
    );
    assert_eq!(
        Debugger::get_next_command(&Input::Eof),
        Heard { remember: false, message: None, command: Some(DebuggerCommand::Quit) }
    );
}

#[test]
fn a_new_inferior_is_resumed_at_once_and_one_line_reports_it() {
    let mut debugger = Debugger::new("sample");
    match debugger.run(DebuggerCommand::Run(Vec::new()), no_symbol) {
        Reply::Spawn(lines, _) => assert!(lines.is_empty()),
        other => panic!("not a spawn: {:?}", other),
    }
    let lines = debugger.started(phantom());
    assert_eq!(lines.len(), 1);
    assert_ne!(lines[0], "could not start subprocess");
    assert!(lines[0].starts_with("failed to start sample, err: "));
    assert_eq!(debugger.inferior_pid(), Some(NOBODY));
}
