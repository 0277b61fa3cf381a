//! The interactive prompt.
use vstd::prelude::*;

verus! {

/// The prompt shown before each line is read.
pub open spec fn prompt_text() -> Seq<char> {
    "$ "@
}

/// Writes the prompt to `writer`; the caller flushes it.
pub fn display(writer: &mut String)
    ensures
        final(writer)@ == old(writer)@ + prompt_text(),
{
    writer.append("$ ");
}

} // verus!
