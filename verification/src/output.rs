//! Helpers for what the program prints.

use crate::text::{line_texts, lines_of, split_lines};
use vstd::prelude::*;
use vstd::string::StringExecFns;

verus! {

/// The blanks that set continuation lines under the tag of a message.
pub const INFO_INDENT: &'static str = "       ";

/// A text, with the prefix that each of its lines is to be written after.
#[derive(Clone, Copy, Debug)]
pub struct Indent<'a>(pub &'a str, pub &'a str);

/// `lines`, each after `prefix`, with a line feed between one line and the
/// next and none at the end.
pub open spec fn indented(prefix: Seq<char>, lines: Seq<Seq<char>>) -> Seq<char>
    decreases lines.len(),
{
    if lines.len() == 0 {
        Seq::empty()
    } else if lines.len() == 1 {
        prefix + lines[0]
    } else {
        indented(prefix, lines.drop_last()) + seq!['\n'] + prefix + lines.last()
    }
}

impl<'a> Indent<'a> {
    /// The text with every line after the prefix. A text without lines
    /// gives the empty text.
    pub fn render(&self) -> (s: String)
        ensures
            s@ == indented(self.0@, lines_of(self.1@)),
    {
        let lines = split_lines(self.1);
        let ghost texts = line_texts(lines@);
        let mut out = String::new();
        let mut i: usize = 0;
        while i < lines.len()
            invariant
                i <= lines.len(),
                texts == line_texts(lines@),
                out@ == indented(self.0@, texts.take(i as int)),
            decreases lines.len() - i,
        {
            proof {
                assert(texts.take(i + 1).drop_last() =~= texts.take(i as int));
                assert(texts.take(i + 1).last() == lines[i as int]@);
                reveal_strlit("\n");
                assert("\n"@ =~= seq!['\n']);
            }
            if i > 0 {
                out.append("\n");
            }
            out.append(self.0);
            out.append(lines[i].as_str());
            proof {
                if i == 0 {
                    assert(texts.take(1)[0] == lines[0]@);
                    assert(out@ =~= self.0@ + lines[0]@);
                }
            }
            i += 1;
        }
        assert(texts.take(lines.len() as int) =~= texts);
        out
    }
}

} // verus!
