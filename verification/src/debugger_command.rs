//! The commands of the operator.

use crate::text::same_text;
use vstd::prelude::*;
use vstd::string::StringExecFns;

verus! {

/// A command of the operator.
#[derive(Clone, Debug, PartialEq, Eq)]
pub enum DebuggerCommand {
    /// End the session.
    Quit,
    /// Start the target anew, with these arguments.
    Run(Vec<String>),
    /// Let the inferior run on.
    Continue,
    /// Show the inferior's stack.
    BackTrace,
}

/// A command as a plain value: the arguments of `Run` as texts.
pub enum CommandView {
    /// End the session.
    Quit,
    /// Start the target anew, with these arguments.
    Run(Seq<Seq<char>>),
    /// Let the inferior run on.
    Continue,
    /// Show the inferior's stack.
    BackTrace,
}

impl View for DebuggerCommand {
    type V = CommandView;

    open spec fn view(&self) -> CommandView {
        match self {
            DebuggerCommand::Quit => CommandView::Quit,
            DebuggerCommand::Run(args) => CommandView::Run(args.deep_view()),
            DebuggerCommand::Continue => CommandView::Continue,
            DebuggerCommand::BackTrace => CommandView::BackTrace,
        }
    }
}

/// The command that a line of words stands for: the first word is the verb,
/// in full or abbreviated, and the words after `run` are its arguments.
pub open spec fn command_of(words: Seq<Seq<char>>) -> Option<CommandView>
    recommends
        words.len() > 0,
{
    let verb = words[0];
    if verb == "q"@ || verb == "quit"@ {
        Some(CommandView::Quit)
    } else if verb == "r"@ || verb == "run"@ {
        Some(CommandView::Run(words.skip(1)))
    } else if verb == "c"@ || verb == "cont"@ || verb == "continue"@ {
        Some(CommandView::Continue)
    } else if verb == "bt"@ || verb == "back"@ || verb == "backtrace"@ {
        Some(CommandView::BackTrace)
    } else {
        None
    }
}

/// The texts of a vector of string slices.
pub open spec fn texts(tokens: Seq<&str>) -> Seq<Seq<char>> {
    Seq::new(tokens.len(), |i: int| tokens[i]@)
}

impl DebuggerCommand {
    /// Reads a command from the words of a line. `None` where the first
    /// word is no verb.
    pub fn from_tokens(tokens: &Vec<&str>) -> (command: Option<DebuggerCommand>)
        requires
            tokens@.len() > 0,
        ensures
            command is Some <==> command_of(texts(tokens@)) is Some,
            command matches Some(c) ==> Some(c@) == command_of(texts(tokens@)),
    {
        let verb = tokens[0];
        if same_text(verb, "q") || same_text(verb, "quit") {
            Some(DebuggerCommand::Quit)
        } else if same_text(verb, "r") || same_text(verb, "run") {
            let mut args: Vec<String> = Vec::new();
            let mut i: usize = 1;
            assert(args.deep_view() =~= texts(tokens@).subrange(1, 1));
            while i < tokens.len()
                invariant
                    1 <= i <= tokens@.len(),
                    args.deep_view() == texts(tokens@).subrange(1, i as int),
                decreases tokens@.len() - i,
            {
                let ghost before = args.deep_view();
                args.push(String::from_str(tokens[i]));
                assert(args.deep_view() =~= before.push(tokens@[i as int]@));
                assert(texts(tokens@).subrange(1, i + 1) =~= before.push(tokens@[i as int]@));
                i += 1;
            }
            assert(texts(tokens@).subrange(1, i as int) =~= texts(tokens@).skip(1));
            Some(DebuggerCommand::Run(args))
        } else if same_text(verb, "c") || same_text(verb, "cont") || same_text(verb, "continue") {
            Some(DebuggerCommand::Continue)
        } else if same_text(verb, "bt") || same_text(verb, "back") || same_text(
            verb,
            "backtrace",
        ) {
            Some(DebuggerCommand::BackTrace)
        } else {
            None
        }
    }
}

} // verus!
