//! Searching file contents with a regular expression. The matching
//! engine is the `regex` crate behind a trusted boundary; the line
//! handling and report formatting are verified. The file walk and reads
//! happen in the surrounding binary.

use vstd::prelude::*;
use vstd::string::*;

use super::ToolError;
use crate::strutil::{dec_digits, lines_std, split_lines, strs_view, usize_string};

verus! {

pub struct GrepArgs {
    pub pattern: String,
    pub path: Option<String>,
    pub case_insensitive: Option<bool>,
}

pub struct Grep;

#[verifier::external_type_specification]
#[verifier::external_body]
pub struct ExRegex(regex::Regex);

/// Whether the regular expression written as `pattern` matches anywhere
/// in `text`; a function of the two texts alone.
pub uninterp spec fn regex_match(pattern: Seq<char>, text: Seq<char>) -> bool;

/// Relies on `regex::Regex::new`: the pattern compiles, or the error
/// says why not.
#[verifier::external_body]
fn regex_new(pattern: &str) -> (r: Result<regex::Regex, String>) {
    match regex::Regex::new(pattern) {
        Ok(re) => Ok(re),
        Err(e) => Err(e.to_string()),
    }
}

/// A compiled search pattern, kept beside its text.
pub struct Pattern {
    pattern: String,
    re: regex::Regex,
}

/// Relies on `regex::Regex::is_match`. A `Pattern`'s compiled form comes
/// from its own pattern text and nothing else, so whether a line matches
/// is a function of that text and the line.
#[verifier::external_body]
fn re_is_match(p: &Pattern, text: &str) -> (r: bool)
    ensures
        r == regex_match(p.pattern@, text@),
{
    p.re.is_match(text)
}

impl Pattern {
    /// The pattern text this was compiled from.
    pub closed spec fn spec_pattern(&self) -> Seq<char> {
        self.pattern@
    }

    /// Compiles a pattern; a rejected one is an error naming the reason.
    pub fn new(pattern: &str) -> (r: Result<Pattern, ToolError>)
        ensures
            r matches Ok(p) ==> p.spec_pattern() == pattern@,
            r matches Err(e) ==> exists|reason: Seq<char>|
                e.0@ == "Invalid regex pattern: "@ + reason,
    {
        match regex_new(pattern) {
            Ok(re) => Ok(Pattern { pattern: pattern.to_owned(), re }),
            Err(msg) => {
                let mut s = String::new();
                s.append("Invalid regex pattern: ");
                s.append(msg.as_str());
                proof {
                    assert(s@ == "Invalid regex pattern: "@ + msg@);
                }
                Err(ToolError(s))
            },
        }
    }

    /// Whether this pattern matches anywhere in the text.
    pub fn is_match(&self, text: &str) -> (r: bool)
        ensures
            r == regex_match(self.spec_pattern(), text@),
    {
        re_is_match(self, text)
    }
}

/// The report lines for one searched file, over its first `n` lines:
/// path, one-based line number and the line itself, for every line the
/// pattern matches.
pub open spec fn match_lines(
    path: Seq<char>,
    ls: Seq<Seq<char>>,
    pattern: Seq<char>,
    n: int,
) -> Seq<Seq<char>>
    decreases n,
{
    if n <= 0 {
        Seq::empty()
    } else {
        let rest = match_lines(path, ls, pattern, n - 1);
        if regex_match(pattern, ls[n - 1]) {
            rest.push(path + ":"@ + dec_digits(n) + ": "@ + ls[n - 1])
        } else {
            rest
        }
    }
}

impl Grep {
    /// The pattern text to compile: a case-insensitive search carries
    /// the flag prefix.
    pub fn effective_pattern(pattern: &str, case_insensitive: bool) -> (r: String)
        ensures
            case_insensitive ==> r@ == "(?i)"@ + pattern@,
            !case_insensitive ==> r@ == pattern@,
    {
        if case_insensitive {
            let mut s = String::new();
            s.append("(?i)");
            s.append(pattern);
            s
        } else {
            pattern.to_owned()
        }
    }

    /// Searches one file's content line by line, reporting each matching
    /// line under the given path label.
    pub fn search_content(path_label: &str, content: &str, pattern: &Pattern) -> (r: Vec<String>)
        ensures
            strs_view(r@) == match_lines(
                path_label@,
                lines_std(content@),
                pattern.spec_pattern(),
                lines_std(content@).len() as int,
            ),
    {
        let lines = split_lines(content);
        let ghost ls = lines_std(content@);
        let mut results: Vec<String> = Vec::new();
        proof {
            assert(strs_view(results@) =~= Seq::<Seq<char>>::empty());
        }
        let n = lines.len();
        let mut i: usize = 0;
        while i < n
            invariant
                n == lines@.len(),
                strs_view(lines@) == ls,
                i <= n,
                strs_view(results@) == match_lines(path_label@, ls, pattern.spec_pattern(), i as int),
            decreases n - i,
        {
            proof {
                assert(ls[i as int] == lines@[i as int]@);
            }
            if pattern.is_match(lines[i].as_str()) {
                let mut line = String::new();
                line.append(path_label);
                line.append(":");
                let num = usize_string(i + 1);
                line.append(num.as_str());
                line.append(": ");
                line.append(lines[i].as_str());
                let ghost r0 = strs_view(results@);
                let ghost lv = line@;
                results.push(line);
                proof {
                    assert(strs_view(results@) =~= r0.push(lv));
                }
            }
            i = i + 1;
        }
        proof {
            assert(ls.len() == n);
        }
        results
    }

    /// An empty search result is replaced by a fixed note; anything else
    /// is handed back unchanged.
    pub fn finalize_results(results: Vec<String>) -> (r: Vec<String>)
        ensures
            results@.len() == 0 ==> r@.len() == 1 && r@[0]@ == "No matches found"@,
            results@.len() > 0 ==> r@ == results@,
    {
        if results.is_empty() {
            let mut note: Vec<String> = Vec::new();
            note.push("No matches found".to_owned());
            note
        } else {
            results
        }
    }
}

} // verus!
