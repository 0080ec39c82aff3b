//! Reading a file back to the user: the file itself is read by the
//! surrounding binary; numbering its lines for display is verified here.

use vstd::prelude::*;
use vstd::string::*;

use crate::strutil::{dec_digits, lines_std, pad_left, spaces, split_lines, strs_view, usize_string};

verus! {

pub struct ReadFileArgs {
    pub file_path: String,
}

pub struct ReadFile;

/// One numbered display line: the one-based number right-aligned to width
/// six, an arrow, the line's text.
pub open spec fn numbered_line(i: int, line: Seq<char>) -> Seq<char> {
    spaces(6 - dec_digits(i + 1).len()) + dec_digits(i + 1) + "\u{2192}"@ + line
}

pub open spec fn numbered_upto(ls: Seq<Seq<char>>, n: int) -> Seq<char>
    decreases n,
{
    if n <= 0 {
        Seq::empty()
    } else if n == 1 {
        numbered_line(0, ls[0])
    } else {
        numbered_upto(ls, n - 1) + "\n"@ + numbered_line(n - 1, ls[n - 1])
    }
}

/// A whole text numbered for display, one display line per input line.
pub open spec fn numbered_report(ls: Seq<Seq<char>>) -> Seq<char> {
    numbered_upto(ls, ls.len() as int)
}

impl ReadFile {
    /// Numbers a file's lines for display.
    pub fn number_content(content: &str) -> (r: String)
        ensures
            r@ == numbered_report(lines_std(content@)),
    {
        let lines = split_lines(content);
        let ghost ls = lines_std(content@);
        let mut out = String::new();
        let n = lines.len();
        let mut i: usize = 0;
        while i < n
            invariant
                n == lines@.len(),
                strs_view(lines@) == ls,
                i <= n,
                out@ == numbered_upto(ls, i as int),
            decreases n - i,
        {
            proof {
                assert(ls[i as int] == lines@[i as int]@);
            }
            if i > 0 {
                out.append("\n");
            }
            let num = pad_left(usize_string(i + 1), 6);
            out.append(num.as_str());
            out.append("\u{2192}");
            out.append(lines[i].as_str());
            proof {
                assert(out@ =~= numbered_upto(ls, i + 1));
            }
            i = i + 1;
        }
        proof {
            assert(ls.len() == n);
        }
        out
    }
}

} // verus!
