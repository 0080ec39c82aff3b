//! The directory tree view: the walk happens in the surrounding binary;
//! ordering the entries and drawing the tree are verified here.

use vstd::prelude::*;
use vstd::string::*;

use crate::strutil::{lemma_lex_le_antisym, lemma_lex_le_refl, lemma_lex_le_total,
    lemma_lex_le_trans, lex_le, spaces, str_eq, str_lex_le};

verus! {

pub struct TreeArgs {
    pub path: Option<String>,
    pub max_depth: Option<usize>,
}

pub struct Tree;

/// One walked entry: its name, its depth below the root, and whether it
/// is a directory.
#[derive(Debug, Clone)]
pub struct TreeEntry {
    pub name: String,
    pub depth: usize,
    pub is_dir: bool,
}

/// Mathematical image of a `TreeEntry`.
pub ghost struct TreeEntryV {
    pub depth: int,
    pub name: Seq<char>,
    pub is_dir: bool,
}

pub open spec fn tree_view(e: TreeEntry) -> TreeEntryV {
    TreeEntryV { depth: e.depth as int, name: e.name@, is_dir: e.is_dir }
}

pub open spec fn tree_views(s: Seq<TreeEntry>) -> Seq<TreeEntryV> {
    s.map_values(|e: TreeEntry| tree_view(e))
}

/// The display order of tree entries: shallower first, then by name,
/// files before directories among equal names.
pub open spec fn tree_le(a: TreeEntryV, b: TreeEntryV) -> bool {
    a.depth < b.depth || (a.depth == b.depth && ((lex_le(a.name, b.name) && a.name != b.name) || (
    a.name == b.name && (a.is_dir ==> b.is_dir))))
}

proof fn lemma_tree_le_total(a: TreeEntryV, b: TreeEntryV)
    ensures
        tree_le(a, b) || tree_le(b, a),
{
    if a.depth == b.depth {
        lemma_lex_le_total(a.name, b.name);
    }
}

proof fn lemma_tree_le_trans(a: TreeEntryV, b: TreeEntryV, c: TreeEntryV)
    requires
        tree_le(a, b),
        tree_le(b, c),
    ensures
        tree_le(a, c),
{
    if a.depth == b.depth && b.depth == c.depth {
        if lex_le(a.name, b.name) && a.name != b.name && lex_le(b.name, c.name) && b.name
            != c.name {
            lemma_lex_le_trans(a.name, b.name, c.name);
            if a.name == c.name {
                lemma_lex_le_antisym(b.name, c.name);
            }
        } else if a.name == b.name || b.name == c.name {
        }
    }
}

proof fn lemma_tree_le_refl(a: TreeEntryV)
    ensures
        tree_le(a, a),
{
    lemma_lex_le_refl(a.name);
}

/// The tree entries stand in display order.
pub open spec fn sorted_tree(s: Seq<TreeEntryV>) -> bool {
    forall|i: int| 0 <= i && i + 1 < s.len() ==> tree_le(#[trigger] s[i], s[i + 1])
}

/// Compares two entries in the display order.
fn tree_le_exec(a: &TreeEntry, b: &TreeEntry) -> (r: bool)
    ensures
        r == tree_le(tree_view(*a), tree_view(*b)),
{
    if a.depth < b.depth {
        true
    } else if a.depth > b.depth {
        false
    } else if str_eq(a.name.as_str(), b.name.as_str()) {
        !a.is_dir || b.is_dir
    } else {
        str_lex_le(a.name.as_str(), b.name.as_str())
    }
}

impl Tree {

/// Sorts the entries into display order; the result holds exactly the
/// given entries.
pub fn sort_entries(v: Vec<TreeEntry>) -> (r: Vec<TreeEntry>)
    ensures
        sorted_tree(tree_views(r@)),
        tree_views(r@).to_multiset() == tree_views(v@).to_multiset(),
{
    broadcast use vstd::seq_lib::group_to_multiset_ensures;
    broadcast use vstd::multiset::group_multiset_axioms;

    let ghost orig = tree_views(v@);
    let mut rem = v;
    let mut out: Vec<TreeEntry> = Vec::new();
    proof {
        assert(tree_views(out@) =~= Seq::<TreeEntryV>::empty());
        assert(tree_views(out@).to_multiset().add(tree_views(rem@).to_multiset())
            =~= orig.to_multiset());
    }
    while rem.len() > 0
        invariant
            orig == tree_views(v@),
            sorted_tree(tree_views(out@)),
            forall|j: int|
                0 <= j < rem@.len() && tree_views(out@).len() > 0 ==> tree_le(
                    tree_views(out@).last(),
                    tree_view(#[trigger] rem@[j]),
                ),
            tree_views(out@).to_multiset().add(tree_views(rem@).to_multiset())
                == orig.to_multiset(),
        decreases rem@.len(),
    {
        broadcast use vstd::seq_lib::group_to_multiset_ensures;
        broadcast use vstd::multiset::group_multiset_axioms;

        let mut mi: usize = 0;
        let mut i: usize = 1;
        proof {
            lemma_tree_le_refl(tree_view(rem@[0]));
        }
        while i < rem.len()
            invariant
                rem@.len() > 0,
                mi < i,
                i <= rem@.len(),
                forall|j: int| 0 <= j < i ==> tree_le(tree_view(rem@[mi as int]), tree_view(#[trigger] rem@[j])),
            decreases rem@.len() - i,
        {
            if !tree_le_exec(&rem[mi], &rem[i]) {
                proof {
                    lemma_tree_le_total(tree_view(rem@[mi as int]), tree_view(rem@[i as int]));
                    assert forall|j: int| 0 <= j < i implies tree_le(
                        tree_view(rem@[i as int]),
                        tree_view(#[trigger] rem@[j]),
                    ) by {
                        lemma_tree_le_trans(
                            tree_view(rem@[i as int]),
                            tree_view(rem@[mi as int]),
                            tree_view(rem@[j]),
                        );
                    }
                    lemma_tree_le_refl(tree_view(rem@[i as int]));
                }
                mi = i;
            }
            i = i + 1;
        }
        let ghost rem0 = rem@;
        let ghost out0 = tree_views(out@);
        let x = rem.remove(mi);
        out.push(x);
        proof {
            assert(tree_views(rem@) =~= tree_views(rem0).remove(mi as int));
            assert(tree_views(out@) =~= out0.push(tree_view(rem0[mi as int])));
            assert(tree_views(rem0)[mi as int] == tree_view(rem0[mi as int]));
            assert(tree_views(out@).to_multiset().add(tree_views(rem@).to_multiset())
                =~= out0.to_multiset().add(tree_views(rem0).to_multiset()));
            assert forall|t: int| 0 <= t && t + 1 < tree_views(out@).len() implies tree_le(
                #[trigger] tree_views(out@)[t],
                tree_views(out@)[t + 1],
            ) by {
                if t + 2 < tree_views(out@).len() {
                    assert(tree_views(out@)[t] == out0[t]);
                    assert(tree_views(out@)[t + 1] == out0[t + 1]);
                } else {
                    assert(tree_views(out@)[t + 1] == tree_view(rem0[mi as int]));
                }
            }
            assert forall|j: int|
                0 <= j < rem@.len() && tree_views(out@).len() > 0 implies tree_le(
                tree_views(out@).last(),
                tree_view(#[trigger] rem@[j]),
            ) by {
                if j < mi {
                    assert(rem@[j] == rem0[j]);
                } else {
                    assert(rem@[j] == rem0[j + 1]);
                }
            }
        }
    }
    proof {
        assert(tree_views(rem@) =~= Seq::<TreeEntryV>::empty());
        assert(tree_views(out@).to_multiset().add(tree_views(rem@).to_multiset()) =~= tree_views(
            out@,
        ).to_multiset());
    }
    out
}

}

/// One drawn tree line: indentation by depth, a branch mark, a folder or
/// file glyph, the name.
pub open spec fn tree_line(e: TreeEntryV) -> Seq<char> {
    spaces(if e.depth > 0 {
        2 * (e.depth - 1)
    } else {
        0
    }) + "\u{251c}\u{2500} "@ + (if e.is_dir {
        "\u{1f4c1} "@
    } else {
        "\u{1f4c4} "@
    }) + e.name + "\n"@
}

pub open spec fn tree_lines(s: Seq<TreeEntryV>) -> Seq<char>
    decreases s.len(),
{
    if s.len() == 0 {
        Seq::empty()
    } else {
        tree_lines(s.drop_last()) + tree_line(s.last())
    }
}

/// A whole drawn tree: the root path on its own line, then one line per
/// entry in the order given.
pub open spec fn tree_report(root: Seq<char>, s: Seq<TreeEntryV>) -> Seq<char> {
    root + "\n"@ + tree_lines(s)
}

impl Tree {
    /// Draws the tree of already ordered entries under the root line.
    pub fn render(root: &str, entries: &Vec<TreeEntry>) -> (r: String)
        ensures
            r@ == tree_report(root@, tree_views(entries@)),
    {
        let mut out = String::new();
        out.append(root);
        out.append("\n");
        let ghost pre = out@;
        let ghost vs = tree_views(entries@);
        proof {
            assert(vs.take(0) =~= Seq::<TreeEntryV>::empty());
            assert(out@ =~= pre + tree_lines(vs.take(0)));
        }
        let n = entries.len();
        let mut i: usize = 0;
        while i < n
            invariant
                n == entries@.len(),
                vs == tree_views(entries@),
                pre == root@ + "\n"@,
                i <= n,
                out@ == pre + tree_lines(vs.take(i as int)),
            decreases n - i,
        {
            proof {
                assert(vs[i as int] == tree_view(entries@[i as int]));
            }
            let e = &entries[i];
            let mut d: usize = 0;
            let target = if e.depth > 0 {
                e.depth - 1
            } else {
                0
            };
            let ghost base = out@;
            while d < target
                invariant
                    d <= target,
                    out@ == base + spaces(2 * d),
                decreases target - d,
            {
                out.append("  ");
                proof {
                    reveal_strlit("  ");
                    assert(spaces(2 * d + 2) =~= spaces(2 * d + 1).push(' '));
                    assert(spaces(2 * d + 1) =~= spaces(2 * d).push(' '));
                    assert(out@ =~= base + spaces(2 * (d + 1)));
                }
                d = d + 1;
            }
            out.append("\u{251c}\u{2500} ");
            if e.is_dir {
                out.append("\u{1f4c1} ");
            } else {
                out.append("\u{1f4c4} ");
            }
            out.append(e.name.as_str());
            out.append("\n");
            proof {
                assert(vs.take(i + 1).drop_last() =~= vs.take(i as int));
                assert(vs.take(i + 1).last() == vs[i as int]);
                assert(out@ =~= pre + tree_lines(vs.take(i + 1)));
            }
            i = i + 1;
        }
        proof {
            assert(vs.take(n as int) =~= vs);
        }
        out
    }
}

} // verus!
