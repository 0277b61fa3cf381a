//! The builtins that produce output: `echo`.
use vstd::prelude::*;
use crate::command::strings_view;

verus! {

/// The words of `a` with one space between each two.
pub open spec fn joined(a: Seq<Seq<char>>) -> Seq<char>
    decreases a.len(),
{
    if a.len() == 0 {
        seq![]
    } else if a.len() == 1 {
        a[0]
    } else {
        joined(a.drop_last()) + " "@ + a.last()
    }
}

/// What `echo` prints for `args`: the words space-joined, then one newline.
pub open spec fn echo_output(args: Seq<Seq<char>>) -> Seq<char> {
    joined(args) + "\n"@
}

/// Writes `args` to `writer` separated by single spaces, followed by a newline.
pub fn echo(writer: &mut String, args: &Vec<String>)
    ensures
        final(writer)@ == old(writer)@ + echo_output(strings_view(args@)),
{
    let ghost a = strings_view(args@);
    let n = args.len();
    let mut i: usize = 0;
    while i < n
        invariant
            n == args@.len(),
            a == strings_view(args@),
            i <= n,
            writer@ == old(writer)@ + joined(a.take(i as int)),
        decreases n - i,
    {
        let ghost before = writer@;
        assert(a.take(i as int + 1).drop_last() =~= a.take(i as int));
        if i > 0 {
            writer.append(" ");
        } else {
            assert(a.take(1) =~= seq![a[0]]);
        }
        writer.append(args[i].as_str());
        proof {
            reveal_strlit(" ");
            if i > 0 {
                assert(writer@ =~= old(writer)@ + joined(a.take(i as int + 1)));
            } else {
                assert(writer@ =~= old(writer)@ + joined(a.take(i as int + 1)));
            }
        }
        i = i + 1;
    }
    assert(a.take(n as int) =~= a);
    writer.append("\n");
}

} // verus!
