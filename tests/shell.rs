use shell::builtins::echo;
use shell::command::{Builtin, Command};
use shell::executor::{execute, lookup_name, Outcome};
use shell::parser::{parse_i32, tokenize, Parser};
use shell::prompt::display;
use shell::utils::{
    file_name, find_executable, join_path, search_candidates, split_paths, FileStatus,
    ResolveError,
};

fn strings(words: &[&str]) -> Vec<String> {
    words.iter().map(|w| w.to_string()).collect()
}

fn parse_line(line: Option<&str>) -> (Command, String) {
    let mut err = String::new();
    let command = Parser::parse(&mut err, line);
    (command, err)
}

fn run(command: Command, resolved: Option<&str>) -> (Outcome, String, String) {
    let mut out = String::new();
    let mut err = String::new();
    let outcome = execute(&mut out, &mut err, command, resolved.map(|s| s.to_string()));
    (outcome, out, err)
}

fn exe() -> Option<FileStatus> {
    Some(FileStatus { is_file: true, mode: 0o755 })
}

#[test]
fn echo_joins_with_single_spaces() {
    let mut out = String::from("> ");
    echo(&mut out, &strings(&["a", "bc", "d"]));
    assert_eq!(out, "> a bc d\n");
}

#[test]
fn echo_without_args_writes_newline() {
    let mut out = String::new();
    echo(&mut out, &Vec::new());
    assert_eq!(out, "\n");
}

#[test]
fn echo_single_arg() {
    let mut out = String::new();
    echo(&mut out, &strings(&["x"]));
    assert_eq!(out, "x\n");
}

#[test]
fn type_of_builtins_reports_builtin() {
    for b in ["exit", "echo", "type"] {
        let (outcome, out, err) = run(Command::Type { target: b.to_string() }, Some("/bin/echo"));
        assert_eq!(outcome, Outcome::Continue);
        assert_eq!(out, format!("{b} is a shell builtin\n"));
        assert_eq!(err, "");
        assert_eq!(lookup_name(&Command::Type { target: b.to_string() }), None);
    }
}

#[test]
fn type_of_found_program_reports_path() {
    let c = Command::Type { target: "ls".to_string() };
    assert_eq!(lookup_name(&c), Some("ls".to_string()));
    let (outcome, out, err) = run(c, Some("/usr/bin/ls"));
    assert_eq!(outcome, Outcome::Continue);
    assert_eq!(out, "ls is /usr/bin/ls\n");
    assert_eq!(err, "");
}

#[test]
fn type_of_unknown_name_not_found() {
    let (c, err0) = parse_line(Some("type nonexistentcmd123\n"));
    assert_eq!(err0, "");
    let (outcome, out, err) = run(c, None);
    assert_eq!(outcome, Outcome::Continue);
    assert_eq!(out, "");
    assert_eq!(err, "nonexistentcmd123: not found\n");
}

#[test]
fn first_directory_wins() {
    let c = search_candidates(Some("/d1:/d2"), "cmd").unwrap();
    assert_eq!(c, strings(&["/d1/cmd", "/d2/cmd"]));
    assert_eq!(find_executable(&c, &vec![exe(), exe()]), Some("/d1/cmd".to_string()));
    assert_eq!(find_executable(&c, &vec![None, exe()]), Some("/d2/cmd".to_string()));
}

#[test]
fn file_without_execute_bit_is_skipped() {
    let c = strings(&["/d1/cmd"]);
    let plain = Some(FileStatus { is_file: true, mode: 0o644 });
    assert_eq!(find_executable(&c, &vec![plain]), None);
    let c2 = strings(&["/d1/cmd", "/d2/cmd"]);
    assert_eq!(find_executable(&c2, &vec![plain, exe()]), Some("/d2/cmd".to_string()));
    let only_other = Some(FileStatus { is_file: true, mode: 0o001 });
    assert_eq!(find_executable(&c, &vec![only_other]), Some("/d1/cmd".to_string()));
}

#[test]
fn directory_is_never_found() {
    let c = strings(&["/d1/cmd"]);
    let dir = Some(FileStatus { is_file: false, mode: 0o755 });
    assert_eq!(find_executable(&c, &vec![dir]), None);
    assert_eq!(find_executable(&Vec::new(), &Vec::new()), None);
}

#[test]
fn exit_without_code_is_zero() {
    let (c, _) = parse_line(Some("exit\n"));
    assert_eq!(c, Command::Exit { status_code: 0 });
    assert_eq!(run(c, None).0, Outcome::Exit { status_code: 0 });
}

#[test]
fn exit_with_non_numeric_code_is_zero() {
    let (c, _) = parse_line(Some("exit abc"));
    assert_eq!(c, Command::Exit { status_code: 0 });
    let (c, _) = parse_line(Some("exit 99999999999"));
    assert_eq!(c, Command::Exit { status_code: 0 });
}

#[test]
fn exit_with_code() {
    let (c, _) = parse_line(Some("exit 42\n"));
    assert_eq!(c, Command::Exit { status_code: 42 });
    let (outcome, out, err) = run(c, None);
    assert_eq!(outcome, Outcome::Exit { status_code: 42 });
    assert_eq!((out.as_str(), err.as_str()), ("", ""));
}

#[test]
fn end_of_input_is_exit_zero() {
    let (c, err) = parse_line(None);
    assert_eq!(c, Command::Exit { status_code: 0 });
    assert_eq!(err, "");
    assert_eq!(run(c, None).0, Outcome::Exit { status_code: 0 });
}

#[test]
fn echo_collapses_inner_whitespace() {
    let (c, _) = parse_line(Some("echo hello   world\n"));
    assert_eq!(c, Command::Echo { args: strings(&["hello", "world"]) });
    let (outcome, out, err) = run(c, None);
    assert_eq!(outcome, Outcome::Continue);
    assert_eq!(out, "hello world\n");
    assert_eq!(err, "");
}

#[test]
fn unknown_program_not_found_and_not_run() {
    let (c, _) = parse_line(Some("nonexistentcmd123 a b"));
    assert_eq!(
        c,
        Command::External { program: "nonexistentcmd123".to_string(), args: strings(&["a", "b"]) }
    );
    assert_eq!(lookup_name(&c), Some("nonexistentcmd123".to_string()));
    let (outcome, out, err) = run(c, None);
    assert_eq!(outcome, Outcome::Continue);
    assert_eq!(out, "");
    assert_eq!(err, "nonexistentcmd123: not found\n");
}

#[test]
fn unset_search_path_is_fatal() {
    assert_eq!(search_candidates(None, "ls"), Err(ResolveError::SearchPathUnset));
}

#[test]
fn found_program_runs_under_base_name() {
    let (c, _) = parse_line(Some("  cat -n file  "));
    let (outcome, out, err) = run(c, Some("/usr/bin/cat"));
    assert_eq!(
        outcome,
        Outcome::Run {
            path: "/usr/bin/cat".to_string(),
            arg0: "cat".to_string(),
            args: strings(&["-n", "file"]),
        }
    );
    assert_eq!((out.as_str(), err.as_str()), ("", ""));
}

#[test]
fn blank_line_is_noop() {
    assert_eq!(parse_line(Some("")).0, Command::Noop);
    assert_eq!(parse_line(Some(" \t \n")).0, Command::Noop);
    let (outcome, out, err) = run(Command::Noop, None);
    assert_eq!(outcome, Outcome::Continue);
    assert_eq!((out.as_str(), err.as_str()), ("", ""));
}

#[test]
fn type_without_name_reports_diagnostic() {
    let (c, err) = parse_line(Some("type\n"));
    assert_eq!(c, Command::Noop);
    assert_eq!(err, "no parameter passed for `type`\n");
}

#[test]
fn type_with_name_parses() {
    let (c, err) = parse_line(Some("type echo extra"));
    assert_eq!(c, Command::Type { target: "echo".to_string() });
    assert_eq!(err, "");
}

#[test]
fn echo_keeps_quotes_verbatim() {
    let (c, _) = parse_line(Some("echo 'a b'"));
    assert_eq!(c, Command::Echo { args: strings(&["'a", "b'"]) });
}

#[test]
fn builtin_names() {
    assert!(Command::is_builtin("exit"));
    assert!(Command::is_builtin("echo"));
    assert!(Command::is_builtin("type"));
    assert!(!Command::is_builtin("ls"));
    assert!(!Command::is_builtin("Echo"));
    assert_eq!(Builtin::from_name("type"), Some(Builtin::Type));
    assert_eq!(Builtin::from_name(""), None);
}

#[test]
fn integers_read_as_str_parse_does() {
    assert_eq!(parse_i32("42"), Some(42));
    assert_eq!(parse_i32("+7"), Some(7));
    assert_eq!(parse_i32("-13"), Some(-13));
    assert_eq!(parse_i32("007"), Some(7));
    assert_eq!(parse_i32("2147483647"), Some(i32::MAX));
    assert_eq!(parse_i32("-2147483648"), Some(i32::MIN));
    assert_eq!(parse_i32("2147483648"), None);
    assert_eq!(parse_i32("-2147483649"), None);
    assert_eq!(parse_i32(""), None);
    assert_eq!(parse_i32("-"), None);
    assert_eq!(parse_i32("+"), None);
    assert_eq!(parse_i32("4x"), None);
    assert_eq!(parse_i32("٣"), None);
    for s in ["0", "1", "-1", "123456", "-99", "+2147483647", "x", "1-"] {
        assert_eq!(parse_i32(s), s.parse::<i32>().ok());
    }
}

#[test]
fn tokenize_splits_on_unicode_whitespace() {
    assert_eq!(tokenize("  a\tb\u{3000}c\u{a0}d \n"), strings(&["a", "b", "c", "d"]));
    assert_eq!(tokenize(""), Vec::<String>::new());
    assert_eq!(tokenize("é  ü"), strings(&["é", "ü"]));
    let s = "x\u{85}y\u{2028}z\u{1680}w";
    let expected: Vec<String> = s.split_whitespace().map(|t| t.to_string()).collect();
    assert_eq!(tokenize(s), expected);
}

#[test]
fn split_paths_keeps_empty_entries() {
    assert_eq!(split_paths("/bin:/usr/bin"), strings(&["/bin", "/usr/bin"]));
    assert_eq!(split_paths(""), strings(&[""]));
    assert_eq!(split_paths("a::b:"), strings(&["a", "", "b", ""]));
}

#[test]
fn join_path_places_name_under_dir() {
    assert_eq!(join_path("/bin", "ls"), "/bin/ls");
    assert_eq!(join_path("/bin/", "ls"), "/bin/ls");
    assert_eq!(join_path("", "ls"), "ls");
    assert_eq!(join_path("/bin", "/x/ls"), "/x/ls");
    assert_eq!(
        search_candidates(Some(":/bin/"), "ls").unwrap(),
        strings(&["ls", "/bin/ls"])
    );
}

#[test]
fn file_name_is_last_component() {
    assert_eq!(file_name("/usr/bin/cat"), "cat");
    assert_eq!(file_name("cat"), "cat");
    assert_eq!(file_name("./bin/x"), "x");
}

#[test]
fn prompt_is_dollar_space() {
    let mut out = String::new();
    display(&mut out);
    assert_eq!(out, "$ ");
}
