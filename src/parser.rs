//! Turning one line of input into a `Command`.
use vstd::prelude::*;
use crate::command::{spec_builtin, strings_view, Builtin, Command, CommandView};

verus! {

/// The characters that Unicode calls `White_Space`.
pub open spec fn is_ws(c: char) -> bool {
    let u = c as u32;
    (0x09 <= u && u <= 0x0d) || u == 0x20 || u == 0x85 || u == 0xa0 || u == 0x1680 || (0x2000
        <= u && u <= 0x200a) || u == 0x2028 || u == 0x2029 || u == 0x202f || u == 0x205f || u
        == 0x3000
}

/// The maximal runs of non-whitespace characters of `s`, in order.
pub open spec fn tokens(s: Seq<char>) -> Seq<Seq<char>>
    decreases s.len(),
{
    if s.len() == 0 {
        seq![]
    } else {
        let prefix = s.drop_last();
        let c = s.last();
        let before = tokens(prefix);
        if is_ws(c) {
            before
        } else if prefix.len() > 0 && !is_ws(prefix.last()) {
            before.update(before.len() - 1, before.last().push(c))
        } else {
            before.push(seq![c])
        }
    }
}

/// A run of non-whitespace characters is one token.
pub proof fn lemma_tokens_single_word(s: Seq<char>)
    requires
        s.len() > 0,
        forall|i: int| 0 <= i < s.len() ==> !is_ws(#[trigger] s[i]),
    ensures
        tokens(s) == seq![s],
    decreases s.len(),
{
    let p = s.drop_last();
    assert(!is_ws(s[s.len() - 1]));
    if p.len() > 0 {
        assert forall|i: int| 0 <= i < p.len() implies !is_ws(#[trigger] p[i]) by {
            assert(p[i] == s[i]);
        }
        assert(!is_ws(s[p.len() - 1]));
        lemma_tokens_single_word(p);
        assert(p.push(s.last()) =~= s);
        assert(seq![p].update(0, p.push(s.last())) =~= seq![s]);
    } else {
        assert(seq![s.last()] =~= s);
        assert(tokens(p) =~= Seq::<Seq<char>>::empty());
        assert(Seq::<Seq<char>>::empty().push(seq![s.last()]) =~= seq![s]);
    }
}

/// Whether `c` is whitespace.
pub fn is_whitespace(c: char) -> (r: bool)
    ensures
        r == is_ws(c),
{
    let u = c as u32;
    (0x09 <= u && u <= 0x0d) || u == 0x20 || u == 0x85 || u == 0xa0 || u == 0x1680 || (0x2000
        <= u && u <= 0x200a) || u == 0x2028 || u == 0x2029 || u == 0x202f || u == 0x205f || u
        == 0x3000
}

/// Splits `line` on whitespace, dropping empty pieces.
pub fn tokenize(line: &str) -> (r: Vec<String>)
    ensures
        strings_view(r@) == tokens(line@),
{
    let n = line.unicode_len();
    let mut done: Vec<String> = Vec::new();
    let mut start: usize = 0;
    let mut in_token = false;
    let mut i: usize = 0;
    while i < n
        invariant
            n == line@.len(),
            i <= n,
            in_token ==> start < i && i > 0 && !is_ws(line@[i - 1])
                && tokens(line@.take(i as int)) == strings_view(done@).push(
                line@.subrange(start as int, i as int),
            ),
            !in_token ==> (i > 0 ==> is_ws(line@[i - 1])) && tokens(line@.take(i as int))
                == strings_view(done@),
        decreases n - i,
    {
        let c = line.get_char(i);
        let ghost s = line@.take(i as int + 1);
        assert(s.drop_last() =~= line@.take(i as int));
        assert(s.last() == c);
        if is_whitespace(c) {
            if in_token {
                let piece = line.substring_char(start, i);
                let ghost prev = done@;
                done.push(String::from_str(piece));
                assert(strings_view(done@) =~= strings_view(prev).push(piece@));
            }
            in_token = false;
        } else {
            if in_token {
                assert(line@.subrange(start as int, i as int).push(c) =~= line@.subrange(
                    start as int,
                    i as int + 1,
                ));
            } else {
                start = i;
                assert(seq![c] =~= line@.subrange(start as int, i as int + 1));
            }
            in_token = true;
        }
        i = i + 1;
    }
    assert(line@.take(n as int) =~= line@);
    if in_token {
        let piece = line.substring_char(start, n);
        let ghost prev = done@;
        done.push(String::from_str(piece));
        assert(strings_view(done@) =~= strings_view(prev).push(piece@));
    }
    done
}

/// Whether every character of `s` is an ASCII digit.
pub open spec fn all_digits(s: Seq<char>) -> bool {
    forall|i: int| 0 <= i < s.len() ==> '0' <= #[trigger] s[i] <= '9'
}

/// The number that the decimal digits `s` write.
pub open spec fn digits_value(s: Seq<char>) -> int
    decreases s.len(),
{
    if s.len() == 0 {
        0
    } else {
        digits_value(s.drop_last()) * 10 + (s.last() as int - '0' as int)
    }
}

/// `s` without a leading `-` or `+`.
pub open spec fn unsigned_part(s: Seq<char>) -> Seq<char> {
    if s.len() > 0 && (s[0] == '-' || s[0] == '+') {
        s.drop_first()
    } else {
        s
    }
}

/// The `i32` that `s` writes as an optional sign and one or more decimal digits,
/// or `None` where `s` has another shape or the value does not fit.
pub open spec fn spec_parse_i32(s: Seq<char>) -> Option<i32> {
    let neg = s.len() > 0 && s[0] == '-';
    let body = unsigned_part(s);
    let v = if neg {
        -digits_value(body)
    } else {
        digits_value(body)
    };
    if body.len() > 0 && all_digits(body) && i32::MIN <= v <= i32::MAX {
        Some(v as i32)
    } else {
        None
    }
}

proof fn lemma_digits_prefix(s: Seq<char>, k: int)
    requires
        all_digits(s),
        0 <= k <= s.len(),
    ensures
        0 <= digits_value(s.take(k)) <= digits_value(s),
    decreases s.len(),
{
    if k == s.len() {
        assert(s.take(k) =~= s);
        if s.len() > 0 {
            lemma_digits_prefix(s.drop_last(), k - 1);
            assert(s.drop_last().take(k - 1) =~= s.drop_last());
        }
    } else {
        lemma_digits_prefix(s.drop_last(), k);
        assert(s.drop_last().take(k) =~= s.take(k));
    }
}

/// Reads `s` as a decimal `i32`, as `str::parse::<i32>` does.
pub fn parse_i32(s: &str) -> (r: Option<i32>)
    ensures
        r == spec_parse_i32(s@),
{
    let n = s.unicode_len();
    let mut i: usize = 0;
    let mut neg = false;
    if n > 0 {
        let c = s.get_char(0);
        if c == '-' {
            neg = true;
            i = 1;
        } else if c == '+' {
            i = 1;
        }
    }
    let ghost first = i;
    let ghost body = s@.subrange(first as int, n as int);
    assert(body =~= unsigned_part(s@));
    if i == n {
        return None;
    }
    let mut acc: i64 = 0;
    while i < n
        invariant
            n == s@.len(),
            first <= i <= n,
            body == s@.subrange(first as int, n as int),
            body == unsigned_part(s@),
            neg == (s@.len() > 0 && s@[0] == '-'),
            all_digits(body.take(i - first)),
            acc == digits_value(body.take(i - first)),
            0 <= acc <= 0x8000_0000,
        decreases n - i,
    {
        let c = s.get_char(i);
        assert(body.take(i - first + 1).drop_last() =~= body.take(i - first));
        assert(body[i - first] == c);
        if c < '0' || c > '9' {
            assert(!all_digits(body));
            return None;
        }
        let d = (c as u32 - '0' as u32) as i64;
        acc = acc * 10 + d;
        i = i + 1;
        assert(all_digits(body.take(i - first)));
        if acc > 0x8000_0000 {
            proof {
                if all_digits(body) {
                    lemma_digits_prefix(body, i - first);
                }
            }
            return None;
        }
    }
    assert(body.take(n - first) =~= body);
    if neg {
        Some((-acc) as i32)
    } else if acc <= 0x7fff_ffff {
        Some(acc as i32)
    } else {
        None
    }
}

/// The diagnostic for a `type` without a name.
pub open spec fn missing_type_target() -> Seq<char> {
    "no parameter passed for `type`\n"@
}

/// The command that the tokens `t` of a line stand for.
pub open spec fn command_of_tokens(t: Seq<Seq<char>>) -> CommandView {
    if t.len() == 0 {
        CommandView::Noop
    } else {
        match spec_builtin(t[0]) {
            Some(Builtin::Exit) => CommandView::Exit {
                status_code: if t.len() > 1 {
                    match spec_parse_i32(t[1]) {
                        Some(v) => v,
                        None => 0,
                    }
                } else {
                    0
                },
            },
            Some(Builtin::Echo) => CommandView::Echo { args: t.drop_first() },
            Some(Builtin::Type) => if t.len() > 1 {
                CommandView::Type { target: t[1] }
            } else {
                CommandView::Noop
            },
            None => CommandView::External { program: t[0], args: t.drop_first() },
        }
    }
}

/// What a line reads as, where `None` is the end of the input.
pub open spec fn line_view(input: Option<&str>) -> Option<Seq<char>> {
    match input {
        Some(line) => Some(line@),
        None => None,
    }
}

/// The command for `input`: the end of the input is `exit 0`.
pub open spec fn spec_parse(input: Option<Seq<char>>) -> CommandView {
    match input {
        Some(line) => command_of_tokens(tokens(line)),
        None => CommandView::Exit { status_code: 0 },
    }
}

/// What parsing `input` writes to the error stream.
pub open spec fn parse_diagnostic(input: Option<Seq<char>>) -> Seq<char> {
    match input {
        Some(line) => {
            let t = tokens(line);
            if t.len() == 1 && spec_builtin(t[0]) == Some(Builtin::Type) {
                missing_type_target()
            } else {
                seq![]
            }
        },
        None => seq![],
    }
}

/// Reads lines of input as commands.
pub struct Parser;

impl Parser {
    /// The command for one line of input, or for the end of the input where
    /// `input` is `None`. A `type` without a name is reported on `stderr` and
    /// gives `Command::Noop`.
    pub fn parse(stderr: &mut String, input: Option<&str>) -> (r: Command)
        ensures
            r@ == spec_parse(line_view(input)),
            final(stderr)@ == old(stderr)@ + parse_diagnostic(line_view(input)),
    {
        let line = match input {
            Some(line) => line,
            None => {
                assert(old(stderr)@ + seq![] =~= old(stderr)@);
                return Command::Exit { status_code: 0 };
            },
        };
        let mut toks = tokenize(line);
        let ghost t = tokens(line@);
        if toks.len() == 0 {
            assert(old(stderr)@ + seq![] =~= old(stderr)@);
            return Command::Noop;
        }
        let first = toks.remove(0);
        assert(strings_view(toks@) =~= t.drop_first());
        assert(first@ == t[0]);
        match Builtin::from_name(first.as_str()) {
            Some(Builtin::Exit) => {
                assert(old(stderr)@ + seq![] =~= old(stderr)@);
                let status_code = if toks.len() > 0 {
                    match parse_i32(toks[0].as_str()) {
                        Some(v) => v,
                        None => 0,
                    }
                } else {
                    0
                };
                Command::Exit { status_code }
            },
            Some(Builtin::Echo) => {
                assert(old(stderr)@ + seq![] =~= old(stderr)@);
                Command::Echo { args: toks }
            },
            Some(Builtin::Type) => {
                if toks.len() > 0 {
                    assert(old(stderr)@ + seq![] =~= old(stderr)@);
                    let target = toks.remove(0);
                    Command::Type { target }
                } else {
                    stderr.append("no parameter passed for `type`\n");
                    Command::Noop
                }
            },
            None => {
                assert(old(stderr)@ + seq![] =~= old(stderr)@);
                Command::External { program: first, args: toks }
            },
        }
    }
}

} // verus!
