//! Finding files by glob pattern. The pattern engine is the `globset`
//! crate behind a trusted boundary; the filtering and the report are
//! verified. The file walk happens in the surrounding binary.

use vstd::prelude::*;
use vstd::string::*;

use super::ToolError;
use crate::scanner::FileInfo;
use crate::strutil::strs_view;

verus! {

pub struct GlobArgs {
    pub pattern: String,
    pub path: Option<String>,
}

pub struct Glob;

#[verifier::external_type_specification]
#[verifier::external_body]
pub struct ExGlobSet(globset::GlobSet);

/// Whether the glob written as `pattern` matches the path written as
/// `path`; a function of the two texts alone.
pub uninterp spec fn glob_match(pattern: Seq<char>, path: Seq<char>) -> bool;

/// Why a pattern gave no compiled set: it did not parse, or the set
/// could not be built from it.
pub enum GlobFault {
    Parse(String),
    Build(String),
}

/// Relies on `globset::Glob::new` and `globset::GlobSetBuilder`: parses
/// one pattern and compiles the set holding just that glob, or reports
/// which of the two steps failed and why.
#[verifier::external_body]
fn glob_set_new(pattern: &str) -> (r: Result<globset::GlobSet, GlobFault>) {
    match globset::Glob::new(pattern) {
        Ok(g) => {
            let mut builder = globset::GlobSetBuilder::new();
            builder.add(g);
            match builder.build() {
                Ok(set) => Ok(set),
                Err(e) => Err(GlobFault::Build(e.to_string())),
            }
        },
        Err(e) => Err(GlobFault::Parse(e.to_string())),
    }
}

/// A compiled glob, kept beside its pattern text.
pub struct GlobPattern {
    pattern: String,
    set: globset::GlobSet,
}

/// Relies on `globset::GlobSet::is_match`. A `GlobPattern`'s compiled
/// set holds exactly the glob of its own pattern text, so whether a path
/// matches is a function of that text and the path.
#[verifier::external_body]
fn gp_is_match(p: &GlobPattern, path: &str) -> (r: bool)
    ensures
        r == glob_match(p.pattern@, path@),
{
    p.set.is_match(path)
}

impl GlobPattern {
    /// The pattern text this was compiled from.
    pub closed spec fn spec_pattern(&self) -> Seq<char> {
        self.pattern@
    }

    /// Compiles one glob into a set of its own; a rejected pattern is an
    /// error naming the reason.
    pub fn new(pattern: &str) -> (r: Result<GlobPattern, ToolError>)
        ensures
            r matches Ok(p) ==> p.spec_pattern() == pattern@,
            r matches Err(e) ==> (exists|reason: Seq<char>|
                e.0@ == "Invalid glob pattern: "@ + reason) || (exists|reason: Seq<char>|
                e.0@ == "Failed to build glob set: "@ + reason),
    {
        match glob_set_new(pattern) {
            Ok(set) => Ok(GlobPattern { pattern: pattern.to_owned(), set }),
            Err(GlobFault::Parse(msg)) => {
                let mut s = String::new();
                s.append("Invalid glob pattern: ");
                s.append(msg.as_str());
                Err(ToolError(s))
            },
            Err(GlobFault::Build(msg)) => {
                let mut s = String::new();
                s.append("Failed to build glob set: ");
                s.append(msg.as_str());
                Err(ToolError(s))
            },
        }
    }

    /// Whether this glob matches the path.
    pub fn is_match(&self, path: &str) -> (r: bool)
        ensures
            r == glob_match(self.spec_pattern(), path@),
    {
        gp_is_match(self, path)
    }
}

/// The paths of the files (never directories) the glob matches, in scan
/// order.
pub open spec fn glob_matched_paths(files: Seq<FileInfo>, pattern: Seq<char>) -> Seq<Seq<char>>
    decreases files.len(),
{
    if files.len() == 0 {
        Seq::empty()
    } else {
        let rest = glob_matched_paths(files.drop_last(), pattern);
        let f = files.last();
        if !f.is_dir && glob_match(pattern, f.path@) {
            rest.push(f.path@)
        } else {
            rest
        }
    }
}

impl Glob {
    /// Keeps the walked files whose path the glob matches.
    pub fn filter_matches(files: &Vec<FileInfo>, pattern: &GlobPattern) -> (r: Vec<String>)
        ensures
            strs_view(r@) == glob_matched_paths(files@, pattern.spec_pattern()),
    {
        let mut results: Vec<String> = Vec::new();
        proof {
            assert(strs_view(results@) =~= Seq::<Seq<char>>::empty());
            assert(files@.take(0) =~= Seq::<FileInfo>::empty());
        }
        let n = files.len();
        let mut i: usize = 0;
        while i < n
            invariant
                n == files@.len(),
                i <= n,
                strs_view(results@) == glob_matched_paths(
                    files@.take(i as int),
                    pattern.spec_pattern(),
                ),
            decreases n - i,
        {
            proof {
                assert(files@.take(i + 1).drop_last() =~= files@.take(i as int));
                assert(files@.take(i + 1).last() == files@[i as int]);
            }
            let f = &files[i];
            if !f.is_dir && pattern.is_match(f.path.as_str()) {
                let ghost r0 = strs_view(results@);
                results.push(f.path.clone());
                proof {
                    assert(strs_view(results@) =~= r0.push(f.path@));
                }
            }
            i = i + 1;
        }
        proof {
            assert(files@.take(n as int) =~= files@);
        }
        results
    }

    /// An empty match list is replaced by a fixed note; anything else is
    /// handed back unchanged.
    pub fn finalize_results(results: Vec<String>) -> (r: Vec<String>)
        ensures
            results@.len() == 0 ==> r@.len() == 1 && r@[0]@ == "No files matched the pattern"@,
            results@.len() > 0 ==> r@ == results@,
    {
        if results.is_empty() {
            let mut note: Vec<String> = Vec::new();
            note.push("No files matched the pattern".to_owned());
            note
        } else {
            results
        }
    }
}

} // verus!
