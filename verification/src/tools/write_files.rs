//! Writing a batch of files: the per-file diff reports come from the diff
//! engine; joining them into one answer is verified here. The writes
//! themselves happen in the surrounding binary.

use vstd::prelude::*;
use vstd::string::*;

use crate::strutil::strs_view;

verus! {

pub struct FileToWrite {
    pub path: String,
    pub content: String,
}

pub struct WriteFilesArgs {
    pub files: Vec<FileToWrite>,
}

pub struct WriteFiles;

/// Texts joined by a separator, nothing added before the first or after
/// the last.
pub open spec fn joined_with(parts: Seq<Seq<char>>, sep: Seq<char>) -> Seq<char>
    decreases parts.len(),
{
    if parts.len() == 0 {
        Seq::empty()
    } else if parts.len() == 1 {
        parts[0]
    } else {
        joined_with(parts.drop_last(), sep) + sep + parts.last()
    }
}

impl WriteFiles {
    /// Joins the per-file reports into one answer, a line break between
    /// them.
    pub fn combine_reports(outputs: &Vec<String>) -> (r: String)
        ensures
            r@ == joined_with(strs_view(outputs@), "\n"@),
    {
        let mut result = String::new();
        let n = outputs.len();
        let mut i: usize = 0;
        proof {
            assert(strs_view(outputs@).take(0) =~= Seq::<Seq<char>>::empty());
        }
        while i < n
            invariant
                n == outputs@.len(),
                i <= n,
                result@ == joined_with(strs_view(outputs@).take(i as int), "\n"@),
            decreases n - i,
    {
            proof {
                assert(strs_view(outputs@).take(i + 1).drop_last() =~= strs_view(
                    outputs@,
                ).take(i as int));
                assert(strs_view(outputs@).take(i + 1).last() == outputs@[i as int]@);
                if i == 0 {
                    assert(strs_view(outputs@).take(1)[0] == outputs@[0]@);
                }
            }
            if i > 0 {
                result.append("\n");
            }
            result.append(outputs[i].as_str());
            proof {
                assert(result@ =~= joined_with(strs_view(outputs@).take(i + 1), "\n"@));
            }
            i = i + 1;
        }
        proof {
            assert(strs_view(outputs@).take(n as int) =~= strs_view(outputs@));
        }
        result
    }
}

} // verus!
