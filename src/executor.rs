//! Carrying out a `Command`: builtins write to the output buffers, external
//! programs become an `Outcome` for the caller to run.
use vstd::prelude::*;
use crate::builtins::{echo, echo_output};
use crate::command::{spec_is_builtin, strings_view, Command, CommandView};
use crate::parser::{all_digits, digits_value, is_ws, lemma_tokens_single_word, spec_parse, spec_parse_i32, tokens, unsigned_part};
use crate::utils::{base_name, file_name};

verus! {

/// What the caller does once a command has been executed.
#[derive(Debug, PartialEq, Eq)]
pub enum Outcome {
    /// Read the next line.
    Continue,
    /// End the interpreter with this exit code.
    Exit { status_code: i32 },
    /// Launch the program at `path`, naming it `arg0`, with `args`, and wait
    /// for it; then read the next line.
    Run { path: String, arg0: String, args: Vec<String> },
}

/// What an `Outcome` holds, over sequences of characters.
pub enum OutcomeView {
    Continue,
    Exit { status_code: i32 },
    Run { path: Seq<char>, arg0: Seq<char>, args: Seq<Seq<char>> },
}

impl View for Outcome {
    type V = OutcomeView;

    open spec fn view(&self) -> OutcomeView {
        match self {
            Outcome::Continue => OutcomeView::Continue,
            Outcome::Exit { status_code } => OutcomeView::Exit { status_code: *status_code },
            Outcome::Run { path, arg0, args } => OutcomeView::Run {
                path: path@,
                arg0: arg0@,
                args: strings_view(args@),
            },
        }
    }
}

/// The name that must be looked up on the search path before `c` can be
/// executed, if any: the target of a `type` that is not a builtin, or the
/// program of an external command.
pub open spec fn spec_lookup_name(c: CommandView) -> Option<Seq<char>> {
    match c {
        CommandView::Type { target } => if spec_is_builtin(target) {
            None
        } else {
            Some(target)
        },
        CommandView::External { program, args } => Some(program),
        _ => None,
    }
}

/// The line that reports `name` as not found.
pub open spec fn not_found_line(name: Seq<char>) -> Seq<char> {
    name + ": not found\n"@
}

/// The line that reports `name` as a builtin.
pub open spec fn builtin_line(name: Seq<char>) -> Seq<char> {
    name + " is a shell builtin\n"@
}

/// The line that reports `name` as found at `path`.
pub open spec fn found_line(name: Seq<char>, path: Seq<char>) -> Seq<char> {
    name + " is "@ + path + "\n"@
}

/// What executing `c` hands back, where `resolved` is what the lookup of
/// `spec_lookup_name(c)` found.
pub open spec fn spec_outcome(c: CommandView, resolved: Option<Seq<char>>) -> OutcomeView {
    match c {
        CommandView::Exit { status_code } => OutcomeView::Exit { status_code },
        CommandView::External { program, args } => match resolved {
            Some(p) => OutcomeView::Run { path: p, arg0: base_name(p), args },
            None => OutcomeView::Continue,
        },
        _ => OutcomeView::Continue,
    }
}

/// What executing `c` writes to standard output.
pub open spec fn spec_stdout(c: CommandView, resolved: Option<Seq<char>>) -> Seq<char> {
    match c {
        CommandView::Echo { args } => echo_output(args),
        CommandView::Type { target } => if spec_is_builtin(target) {
            builtin_line(target)
        } else {
            match resolved {
                Some(p) => found_line(target, p),
                None => seq![],
            }
        },
        _ => seq![],
    }
}

/// What executing `c` writes to standard error.
pub open spec fn spec_stderr(c: CommandView, resolved: Option<Seq<char>>) -> Seq<char> {
    match c {
        CommandView::Type { target } => if !spec_is_builtin(target) && resolved is None {
            not_found_line(target)
        } else {
            seq![]
        },
        CommandView::External { program, args } => if resolved is None {
            not_found_line(program)
        } else {
            seq![]
        },
        _ => seq![],
    }
}

/// The name to look up on the search path before `command` is executed.
pub fn lookup_name(command: &Command) -> (r: Option<String>)
    ensures
        r matches Some(n) ==> spec_lookup_name(command@) == Some(n@),
        r is None ==> spec_lookup_name(command@) is None,
{
    match command {
        Command::Type { target } => {
            if Command::is_builtin(target.as_str()) {
                None
            } else {
                Some(target.clone())
            }
        },
        Command::External { program, args } => Some(program.clone()),
        _ => None,
    }
}

/// Appends the report that `name` was not found.
fn report_not_found(stderr: &mut String, name: &str)
    ensures
        final(stderr)@ == old(stderr)@ + not_found_line(name@),
{
    stderr.append(name);
    stderr.append(": not found\n");
    proof {
        reveal_strlit(": not found\n");
    }
    assert(final(stderr)@ =~= old(stderr)@ + not_found_line(name@));
}

/// Takes the action for `command`. Success output goes to `stdout`, and
/// recoverable errors such as a program that was not found go to `stderr`.
/// `resolved` is the path that the lookup of `lookup_name(&command)` found;
/// where that is `None`, it is not read.
pub fn execute(stdout: &mut String, stderr: &mut String, command: Command, resolved: Option<
    String,
>) -> (r: Outcome)
    ensures
        r@ == spec_outcome(command@, opt_view(resolved)),
        final(stdout)@ == old(stdout)@ + spec_stdout(command@, opt_view(resolved)),
        final(stderr)@ == old(stderr)@ + spec_stderr(command@, opt_view(resolved)),
{
    let ghost c = command@;
    let ghost res = opt_view(resolved);
    assert(old(stdout)@ + seq![] =~= old(stdout)@);
    assert(old(stderr)@ + seq![] =~= old(stderr)@);
    match command {
        Command::Exit { status_code } => Outcome::Exit { status_code },
        Command::Echo { args } => {
            echo(stdout, &args);
            Outcome::Continue
        },
        Command::Type { target } => {
            if Command::is_builtin(target.as_str()) {
                stdout.append(target.as_str());
                stdout.append(" is a shell builtin\n");
                proof {
                    reveal_strlit(" is a shell builtin\n");
                }
                assert(final(stdout)@ =~= old(stdout)@ + builtin_line(target@));
            } else {
                match resolved {
                    Some(p) => {
                        stdout.append(target.as_str());
                        stdout.append(" is ");
                        stdout.append(p.as_str());
                        stdout.append("\n");
                        proof {
                            reveal_strlit(" is ");
                            reveal_strlit("\n");
                        }
                        assert(final(stdout)@ =~= old(stdout)@ + found_line(target@, p@));
                    },
                    None => report_not_found(stderr, target.as_str()),
                }
            }
            Outcome::Continue
        },
        Command::External { program, args } => match resolved {
            Some(path) => {
                let arg0 = file_name(path.as_str());
                Outcome::Run { path, arg0, args }
            },
            None => {
                report_not_found(stderr, program.as_str());
                Outcome::Continue
            },
        },
        Command::Noop => Outcome::Continue,
    }
}

/// `type` on a builtin name reports it as a builtin, looks nothing up, and
/// writes no error, whatever a lookup would have found.
pub proof fn type_of_builtin(b: Seq<char>, resolved: Option<Seq<char>>)
    requires
        spec_is_builtin(b),
    ensures
        spec_lookup_name(CommandView::Type { target: b }) is None,
        spec_stdout(CommandView::Type { target: b }, resolved) == builtin_line(b),
        spec_stderr(CommandView::Type { target: b }, resolved) == Seq::<char>::empty(),
        spec_outcome(CommandView::Type { target: b }, resolved) == OutcomeView::Continue,
{
}

/// `type` on any other name looks that name up; it reports the path found on
/// standard output, or that the name was not found on standard error.
pub proof fn type_of_other(n: Seq<char>, resolved: Option<Seq<char>>)
    requires
        !spec_is_builtin(n),
    ensures
        spec_lookup_name(CommandView::Type { target: n }) == Some(n),
        resolved matches Some(p) ==> spec_stdout(CommandView::Type { target: n }, resolved)
            == found_line(n, p) && spec_stderr(CommandView::Type { target: n }, resolved)
            == Seq::<char>::empty(),
        resolved is None ==> spec_stdout(CommandView::Type { target: n }, resolved)
            == Seq::<char>::empty() && spec_stderr(CommandView::Type { target: n }, resolved)
            == not_found_line(n),
{
}

/// A line whose first word is `exit`, with no second word or one that is not
/// a number, ends the interpreter with code 0.
pub proof fn exit_defaults_to_zero(line: Seq<char>, resolved: Option<Seq<char>>)
    requires
        tokens(line).len() >= 1,
        tokens(line)[0] == "exit"@,
        tokens(line).len() == 1 || spec_parse_i32(tokens(line)[1]) is None,
    ensures
        spec_outcome(spec_parse(Some(line)), resolved) == (OutcomeView::Exit { status_code: 0 }),
{
}

/// The end of the input is read as the line `exit 0`: it ends the
/// interpreter with code 0 and writes nothing.
pub proof fn end_of_input_exits(resolved: Option<Seq<char>>)
    ensures
        spec_parse(None) == spec_parse(Some("exit 0"@)),
        spec_parse(None) == (CommandView::Exit { status_code: 0 }),
        spec_outcome(spec_parse(None), resolved) == (OutcomeView::Exit { status_code: 0 }),
        spec_stdout(spec_parse(None), resolved) == Seq::<char>::empty(),
        spec_stderr(spec_parse(None), resolved) == Seq::<char>::empty(),
{
    reveal_strlit("exit 0");
    reveal_strlit("exit");
    let line = "exit 0"@;
    assert(line.take(4) =~= "exit"@);
    lemma_tokens_single_word(line.take(4));
    assert(line.drop_last().drop_last() =~= line.take(4));
    assert(line.drop_last() =~= line.take(5));
    assert(line.take(5).drop_last() =~= line.take(4));
    assert(is_ws(line[4]));
    assert(tokens(line.take(5)) == tokens(line.take(4)));
    assert(!is_ws(line[5]));
    assert(tokens(line) =~= seq!["exit"@, seq!['0']]);
    let zero = seq!['0'];
    assert(zero.drop_last() =~= Seq::<char>::empty());
    assert(digits_value(zero.drop_last()) == 0);
    assert(digits_value(zero) == 0);
    assert(all_digits(zero));
    assert(unsigned_part(zero) =~= zero);
    assert(spec_parse_i32(zero) == Some(0i32));
}

/// The characters of an optional string.
pub open spec fn opt_view(s: Option<String>) -> Option<Seq<char>> {
    match s {
        Some(s) => Some(s@),
        None => None,
    }
}

} // verus!
