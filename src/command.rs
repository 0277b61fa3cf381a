//! The parsed form of one input line, and the set of builtin names.
use vstd::prelude::*;

verus! {

/// One parsed line of input.
#[derive(Debug, PartialEq, Eq)]
pub enum Command {
    /// Terminate the interpreter with this exit code.
    Exit { status_code: i32 },
    /// Print the arguments separated by single spaces.
    Echo { args: Vec<String> },
    /// Report whether `target` is a builtin or an external program.
    Type { target: String },
    /// Run an external program.
    External { program: String, args: Vec<String> },
    /// Nothing to do.
    Noop,
}

/// What a `Command` holds, over sequences of characters.
pub enum CommandView {
    Exit { status_code: i32 },
    Echo { args: Seq<Seq<char>> },
    Type { target: Seq<char> },
    External { program: Seq<char>, args: Seq<Seq<char>> },
    Noop,
}

/// The characters of each string, in order.
pub open spec fn strings_view(v: Seq<String>) -> Seq<Seq<char>> {
    v.map_values(|s: String| s@)
}

impl View for Command {
    type V = CommandView;

    open spec fn view(&self) -> CommandView {
        match self {
            Command::Exit { status_code } => CommandView::Exit { status_code: *status_code },
            Command::Echo { args } => CommandView::Echo { args: strings_view(args@) },
            Command::Type { target } => CommandView::Type { target: target@ },
            Command::External { program, args } => CommandView::External {
                program: program@,
                args: strings_view(args@),
            },
            Command::Noop => CommandView::Noop,
        }
    }
}

/// The commands that the interpreter runs itself.
#[derive(Debug, Clone, Copy, PartialEq, Eq)]
pub enum Builtin {
    Exit,
    Echo,
    Type,
}

/// The builtin that `name` names, if any: `exit`, `echo` or `type`.
pub open spec fn spec_builtin(name: Seq<char>) -> Option<Builtin> {
    if name == "exit"@ {
        Some(Builtin::Exit)
    } else if name == "echo"@ {
        Some(Builtin::Echo)
    } else if name == "type"@ {
        Some(Builtin::Type)
    } else {
        None
    }
}

/// Whether `name` is one of the builtin names.
pub open spec fn spec_is_builtin(name: Seq<char>) -> bool {
    spec_builtin(name).is_some()
}

impl Builtin {
    /// The builtin that `name` names, if any.
    pub fn from_name(name: &str) -> (r: Option<Builtin>)
        ensures
            r == spec_builtin(name@),
    {
        let s = String::from_str(name);
        let exit = String::from_str("exit");
        let echo = String::from_str("echo");
        let ty = String::from_str("type");
        proof {
            reveal_strlit("exit");
            reveal_strlit("echo");
            reveal_strlit("type");
        }
        if s == exit {
            Some(Builtin::Exit)
        } else if s == echo {
            Some(Builtin::Echo)
        } else if s == ty {
            Some(Builtin::Type)
        } else {
            None
        }
    }
}

impl Command {
    /// Whether `command` names one of the builtins.
    pub fn is_builtin(command: &str) -> (r: bool)
        ensures
            r == spec_is_builtin(command@),
    {
        Builtin::from_name(command).is_some()
    }
}

} // verus!
