//! Listing a directory: the entries are read by the surrounding binary
//! and handed in as plain values; filtering, labelling and ordering them
//! is verified here.

use vstd::prelude::*;
use vstd::string::*;

use crate::strutil::{sort_strings, sorted_strs, strs_view};

verus! {

pub struct ListDirectoryArgs {
    pub path: Option<String>,
    pub show_hidden: Option<bool>,
}

pub struct ListDirectory;

/// What kind of entry a directory holds.
#[derive(Debug, Clone, Copy, PartialEq, Eq, Structural)]
pub enum EntryKind {
    Dir,
    Link,
    File,
}

/// One directory entry, as the binary's read reports it.
#[derive(Debug, Clone)]
pub struct ListedEntry {
    pub name: String,
    pub kind: EntryKind,
}

/// The fixed-width label of an entry kind.
pub open spec fn kind_label(kind: EntryKind) -> Seq<char> {
    match kind {
        EntryKind::Dir => "DIR "@,
        EntryKind::Link => "LINK"@,
        EntryKind::File => "FILE"@,
    }
}

/// A name the listing hides unless asked: one starting with a dot.
pub open spec fn is_hidden(name: Seq<char>) -> bool {
    name.len() > 0 && name[0] == '.'
}

/// The labelled lines of a listing before ordering: hidden entries are
/// kept only on request.
pub open spec fn listed_lines(entries: Seq<ListedEntry>, show_hidden: bool) -> Seq<Seq<char>>
    decreases entries.len(),
{
    if entries.len() == 0 {
        Seq::empty()
    } else {
        let rest = listed_lines(entries.drop_last(), show_hidden);
        let e = entries.last();
        if show_hidden || !is_hidden(e.name@) {
            rest.push(kind_label(e.kind) + " "@ + e.name@)
        } else {
            rest
        }
    }
}

impl ListDirectory {
    /// Renders a directory listing: each kept entry labelled by its kind,
    /// the lines in ascending order, and a fixed note for an empty
    /// listing.
    pub fn render_entries(entries: &Vec<ListedEntry>, show_hidden: bool) -> (r: Vec<String>)
        ensures
            listed_lines(entries@, show_hidden).len() == 0 ==> r@.len() == 1 && r@[0]@
                == "Empty directory"@,
            listed_lines(entries@, show_hidden).len() > 0 ==> sorted_strs(strs_view(r@))
                && strs_view(r@).to_multiset() == listed_lines(entries@, show_hidden).to_multiset(),
    {
        let mut results: Vec<String> = Vec::new();
        proof {
            assert(strs_view(results@) =~= Seq::<Seq<char>>::empty());
            assert(entries@.take(0) =~= Seq::<ListedEntry>::empty());
        }
        let n = entries.len();
        let mut i: usize = 0;
        while i < n
            invariant
                n == entries@.len(),
                i <= n,
                strs_view(results@) == listed_lines(entries@.take(i as int), show_hidden),
            decreases n - i,
        {
            proof {
                assert(entries@.take(i + 1).drop_last() =~= entries@.take(i as int));
                assert(entries@.take(i + 1).last() == entries@[i as int]);
            }
            let e = &entries[i];
            let hidden = e.name.as_str().unicode_len() > 0 && e.name.as_str().get_char(0) == '.';
            if show_hidden || !hidden {
                let mut line = String::new();
                match e.kind {
                    EntryKind::Dir => line.append("DIR "),
                    EntryKind::Link => line.append("LINK"),
                    EntryKind::File => line.append("FILE"),
                }
                line.append(" ");
                line.append(e.name.as_str());
                let ghost r0 = strs_view(results@);
                let ghost lv = line@;
                results.push(line);
                proof {
                    assert(strs_view(results@) =~= r0.push(lv));
                }
            }
            i = i + 1;
        }
        proof {
            assert(entries@.take(n as int) =~= entries@);
        }
        let sorted = sort_strings(results);
        if sorted.is_empty() {
            proof {
                broadcast use vstd::seq_lib::group_to_multiset_ensures;

                assert(strs_view(sorted@) =~= Seq::<Seq<char>>::empty());
                if listed_lines(entries@, show_hidden).len() > 0 {
                    assert(strs_view(sorted@).to_multiset().len() == listed_lines(
                        entries@,
                        show_hidden,
                    ).to_multiset().len());
                }
            }
            let mut note: Vec<String> = Vec::new();
            note.push("Empty directory".to_owned());
            note
        } else {
            proof {
                broadcast use vstd::seq_lib::group_to_multiset_ensures;

                if listed_lines(entries@, show_hidden).len() == 0 {
                    assert(strs_view(sorted@).to_multiset().len() == 0);
                    assert(strs_view(sorted@).len() == 0);
                }
            }
            sorted
        }
    }
}

} // verus!
