//! Directory search: the walk happens in the surrounding binary and hands
//! its entries in as plain values; the filtering is verified here.

use vstd::prelude::*;
use vstd::string::*;

use crate::scanner::{file_name_of, FileInfo};
use crate::strutil::{contains_seq, str_contains, strs_view};

verus! {

pub struct SearchDirectoryArgs {
    pub directory: String,
    pub pattern: Option<String>,
}

pub struct SearchDirectory;

/// A string option's text, if any.
pub open spec fn opt_str_view(o: Option<String>) -> Option<Seq<char>> {
    match o {
        Some(p) => Some(p@),
        None => None,
    }
}

/// The paths of the files (never directories) kept by the search: all of
/// them, or those whose name holds the pattern.
pub open spec fn searched_paths(files: Seq<FileInfo>, pattern: Option<Seq<char>>) -> Seq<
    Seq<char>,
>
    decreases files.len(),
{
    if files.len() == 0 {
        Seq::empty()
    } else {
        let rest = searched_paths(files.drop_last(), pattern);
        let f = files.last();
        if !f.is_dir && (pattern is None || contains_seq(file_name_of(f.path@), pattern->0)) {
            rest.push(f.path@)
        } else {
            rest
        }
    }
}

impl SearchDirectory {
    /// Keeps the scanned files, dropping directories; with a pattern,
    /// only files whose name holds it stay.
    pub fn filter_entries(files: &Vec<FileInfo>, pattern: &Option<String>) -> (r: Vec<String>)
        ensures
            strs_view(r@) == searched_paths(files@, opt_str_view(*pattern)),
    {
        let ghost pat = opt_str_view(*pattern);
        let mut results: Vec<String> = Vec::new();
        proof {
            assert(strs_view(results@) =~= Seq::<Seq<char>>::empty());
            assert(files@.take(0) =~= Seq::<FileInfo>::empty());
        }
        let n = files.len();
        let mut i: usize = 0;
        while i < n
            invariant
                n == files@.len(),
                i <= n,
                pat == opt_str_view(*pattern),
                strs_view(results@) == searched_paths(files@.take(i as int), pat),
            decreases n - i,
        {
            proof {
                assert(files@.take(i + 1).drop_last() =~= files@.take(i as int));
                assert(files@.take(i + 1).last() == files@[i as int]);
            }
            let f = &files[i];
            if !f.is_dir {
                let keep = match pattern {
                    Some(p) => {
                        let name = crate::scanner::file_name_part(f.path.as_str());
                        str_contains(name, p.as_str())
                    },
                    None => true,
                };
                if keep {
                    let ghost r0 = strs_view(results@);
                    results.push(f.path.clone());
                    proof {
                        assert(strs_view(results@) =~= r0.push(f.path@));
                    }
                }
            }
            i = i + 1;
        }
        proof {
            assert(files@.take(n as int) =~= files@);
        }
        results
    }
}

} // verus!
