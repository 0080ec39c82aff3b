//! Project scanning results and the pure queries over them. The directory
//! walk itself (which honours ignore files) happens in the surrounding
//! binary; it hands the entries in as plain values, with each path as
//! text.

use vstd::prelude::*;
use vstd::string::*;

use crate::strutil::{
    contains_seq, first_occurrence, lemma_first_occurrence_at, lemma_first_occurrence_bounds,
    str_contains, strs_view,
};

verus! {

/// One entry of a project scan.
#[derive(Debug, Clone)]
pub struct FileInfo {
    pub path: String,
    pub is_dir: bool,
    pub size: u64,
}

/// Answers queries over a scanned project tree.
pub struct ProjectScanner {
    root: String,
}

/// Project statistics: entries counted and sizes summed over the files.
#[derive(Debug, Clone)]
pub struct ProjectStats {
    pub total_files: usize,
    pub total_dirs: usize,
    pub total_size: u64,
}

/// The part of a path after its last separator; a path ending in a
/// separator has an empty name.
pub open spec fn file_name_of(path: Seq<char>) -> Seq<char>
    decreases path.len(),
    via file_name_of_decreases
{
    let k = first_occurrence(path, '/');
    if k >= path.len() {
        path
    } else {
        file_name_of(path.skip(k + 1))
    }
}

#[via_fn]
proof fn file_name_of_decreases(path: Seq<char>) {
    lemma_first_occurrence_bounds(path, '/');
}

/// The paths of the scanned files (never directories) whose name holds the
/// pattern, in scan order.
pub open spec fn matching_paths(files: Seq<FileInfo>, pattern: Seq<char>) -> Seq<Seq<char>>
    decreases files.len(),
{
    if files.len() == 0 {
        Seq::empty()
    } else {
        let rest = matching_paths(files.drop_last(), pattern);
        let f = files.last();
        if !f.is_dir && contains_seq(file_name_of(f.path@), pattern) {
            rest.push(f.path@)
        } else {
            rest
        }
    }
}

pub open spec fn files_total(files: Seq<FileInfo>) -> int
    decreases files.len(),
{
    if files.len() == 0 {
        0
    } else {
        files_total(files.drop_last()) + if files.last().is_dir {
            0int
        } else {
            1int
        }
    }
}

pub open spec fn dirs_total(files: Seq<FileInfo>) -> int
    decreases files.len(),
{
    if files.len() == 0 {
        0
    } else {
        dirs_total(files.drop_last()) + if files.last().is_dir {
            1int
        } else {
            0int
        }
    }
}

pub open spec fn size_total(files: Seq<FileInfo>) -> int
    decreases files.len(),
{
    if files.len() == 0 {
        0
    } else {
        size_total(files.drop_last()) + if files.last().is_dir {
            0int
        } else {
            files.last().size as int
        }
    }
}

proof fn lemma_counts_bounds(files: Seq<FileInfo>)
    ensures
        0 <= files_total(files) <= files.len(),
        0 <= dirs_total(files) <= files.len(),
        0 <= size_total(files),
    decreases files.len(),
{
    if files.len() > 0 {
        lemma_counts_bounds(files.drop_last());
    }
}

proof fn lemma_size_total_prefix(files: Seq<FileInfo>, i: int)
    requires
        0 <= i <= files.len(),
    ensures
        size_total(files.take(i)) <= size_total(files),
    decreases files.len() - i,
{
    if i < files.len() {
        lemma_size_total_prefix(files, i + 1);
        assert(files.take(i + 1).drop_last() =~= files.take(i));
        lemma_counts_bounds(files.take(i));
    } else {
        assert(files.take(i) =~= files);
    }
}

/// The file-name part of a path: everything after the last separator.
pub fn file_name_part<'a>(path: &'a str) -> (r: &'a str)
    ensures
        r@ == file_name_of(path@),
{
    let n = path.unicode_len();
    let mut start: usize = 0;
    let mut k: usize = 0;
    proof {
        assert(path@.skip(0) =~= path@);
    }
    while k < n
        invariant
            n == path@.len(),
            start <= k <= n,
            file_name_of(path@) == file_name_of(path@.skip(start as int)),
            forall|t: int| start <= t < k ==> path@[t] != '/',
        decreases n - k,
    {
        if path.get_char(k) == '/' {
            proof {
                let u = path@.skip(start as int);
                assert(forall|t: int| 0 <= t < k - start ==> u[t] == path@[t + start]);
                lemma_first_occurrence_at(u, '/', k - start);
                assert(u.skip(k - start + 1) =~= path@.skip(k + 1));
            }
            start = k + 1;
        }
        k = k + 1;
    }
    proof {
        let u = path@.skip(start as int);
        assert(forall|t: int| 0 <= t < u.len() ==> u[t] == path@[t + start]);
        lemma_first_occurrence_at(u, '/', u.len() as int);
    }
    let r = path.substring_char(start, n);
    proof {
        assert(r@ =~= path@.skip(start as int));
    }
    r
}

impl ProjectScanner {
    /// The scan root, as text.
    pub closed spec fn root_spec(&self) -> Seq<char> {
        self.root@
    }

    pub fn new(root: &str) -> (r: Self)
        ensures
            r.root_spec() == root@,
    {
        ProjectScanner { root: root.to_owned() }
    }

    /// The root this scanner was made for.
    pub fn root(&self) -> (r: &str)
        ensures
            r@ == self.root_spec(),
    {
        self.root.as_str()
    }

    /// Finds, among the scanned entries, the files whose name holds the
    /// given pattern.
    pub fn find_files(&self, files: &Vec<FileInfo>, pattern: &str) -> (r: Vec<String>)
        ensures
            strs_view(r@) == matching_paths(files@, pattern@),
    {
        let mut matching: Vec<String> = Vec::new();
        proof {
            assert(strs_view(matching@) =~= Seq::<Seq<char>>::empty());
            assert(files@.take(0) =~= Seq::<FileInfo>::empty());
        }
        let n = files.len();
        let mut i: usize = 0;
        while i < n
            invariant
                n == files@.len(),
                i <= n,
                strs_view(matching@) == matching_paths(files@.take(i as int), pattern@),
            decreases n - i,
        {
            proof {
                assert(files@.take(i + 1).drop_last() =~= files@.take(i as int));
                assert(files@.take(i + 1).last() == files@[i as int]);
            }
            let f = &files[i];
            if !f.is_dir {
                let name = file_name_part(f.path.as_str());
                if str_contains(name, pattern) {
                    let ghost m0 = strs_view(matching@);
                    matching.push(f.path.clone());
                    proof {
                        assert(strs_view(matching@) =~= m0.push(f.path@));
                    }
                }
            }
            i = i + 1;
        }
        proof {
            assert(files@.take(n as int) =~= files@);
        }
        matching
    }

    /// Counts the scanned files and directories and sums the file sizes.
    /// The sizes' sum must fit the counter.
    pub fn get_stats(&self, files: &Vec<FileInfo>) -> (r: ProjectStats)
        requires
            size_total(files@) <= u64::MAX,
        ensures
            r.total_files == files_total(files@),
            r.total_dirs == dirs_total(files@),
            r.total_size == size_total(files@),
    {
        let mut stats = ProjectStats { total_files: 0, total_dirs: 0, total_size: 0 };
        proof {
            assert(files@.take(0) =~= Seq::<FileInfo>::empty());
        }
        let n = files.len();
        let mut i: usize = 0;
        while i < n
            invariant
                n == files@.len(),
                i <= n,
                size_total(files@) <= u64::MAX,
                stats.total_files == files_total(files@.take(i as int)),
                stats.total_dirs == dirs_total(files@.take(i as int)),
                stats.total_size == size_total(files@.take(i as int)),
            decreases n - i,
        {
            proof {
                assert(files@.take(i + 1).drop_last() =~= files@.take(i as int));
                assert(files@.take(i + 1).last() == files@[i as int]);
                lemma_counts_bounds(files@.take(i + 1));
                lemma_size_total_prefix(files@, i + 1);
            }
            let f = &files[i];
            if f.is_dir {
                stats.total_dirs = stats.total_dirs + 1;
            } else {
                stats.total_files = stats.total_files + 1;
                stats.total_size = stats.total_size + f.size;
            }
            i = i + 1;
        }
        proof {
            assert(files@.take(n as int) =~= files@);
        }
        stats
    }
}

} // verus!
