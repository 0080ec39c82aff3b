//! The diff engine: line-level edit scripts with a running line-number
//! policy, context windowing, and rendering of tool reports.
//!
//! `create_diff` aligns the two texts line by line (the alignment itself
//! comes from the `similar` crate), stamps every record with a line number,
//! counts additions and removals over the whole script, and prunes the
//! script down to the changed lines plus surrounding context.
//! `ToolOutput::format` renders a report into its exact textual form.

use vstd::prelude::*;
use vstd::string::*;

use crate::strutil::{dec_digits, pad_left, spaces, usize_string};

verus! {

/// Classifies one line of an edit script relative to the old/new pair.
#[derive(Debug, Clone, Copy, PartialEq, Eq, Structural)]
pub enum ChangeType {
    Context,
    Addition,
    Removal,
}

/// One line of a numbered edit script.
#[derive(Debug, Clone)]
pub struct DiffLine {
    pub line_number: usize,
    pub change_type: ChangeType,
    pub content: String,
}

/// A whole file's change summary: counts over the full script, lines
/// pruned to the context windows.
#[derive(Debug, Clone)]
pub struct FileDiff {
    pub file_path: String,
    pub additions: usize,
    pub removals: usize,
    pub lines: Vec<DiffLine>,
}

/// A rendered operation report: header, then either a diff or a details line.
#[derive(Debug, Clone)]
pub struct ToolOutput {
    pub tool_name: String,
    pub summary: String,
    pub details: Option<String>,
    pub diff: Option<FileDiff>,
}

/// One aligned change before numbering: a tag and the line's content,
/// trailing newline already removed.
#[derive(Debug, Clone)]
pub struct RawChange {
    pub change_type: ChangeType,
    pub content: String,
}

/// Mathematical image of a `RawChange`.
pub ghost struct RawV {
    pub tag: ChangeType,
    pub text: Seq<char>,
}

/// Mathematical image of a `DiffLine`.
pub ghost struct LineV {
    pub number: int,
    pub tag: ChangeType,
    pub text: Seq<char>,
}

pub open spec fn raw_view(c: RawChange) -> RawV {
    RawV { tag: c.change_type, text: c.content@ }
}

pub open spec fn raws_view(s: Seq<RawChange>) -> Seq<RawV> {
    s.map_values(|c: RawChange| raw_view(c))
}

pub open spec fn line_view(l: DiffLine) -> LineV {
    LineV { number: l.line_number as int, tag: l.change_type, text: l.content@ }
}

pub open spec fn lines_view(s: Seq<DiffLine>) -> Seq<LineV> {
    s.map_values(|l: DiffLine| line_view(l))
}

/// How many of the changes carry the given tag.
pub open spec fn tag_count(cs: Seq<RawV>, t: ChangeType) -> int
    decreases cs.len(),
{
    if cs.len() == 0 {
        0
    } else {
        tag_count(cs.drop_last(), t) + if cs.last().tag == t {
            1int
        } else {
            0int
        }
    }
}

/// How many changes are not removals; removals alone leave the running
/// line counter untouched.
pub open spec fn non_removal_count(cs: Seq<RawV>) -> int
    decreases cs.len(),
{
    if cs.len() == 0 {
        0
    } else {
        non_removal_count(cs.drop_last()) + if cs.last().tag is Removal {
            0int
        } else {
            1int
        }
    }
}

/// The numbering policy: a single counter starts at 1 and advances after
/// every record except removals, so a removal shares the number of the
/// line that follows it.
pub open spec fn script_of(cs: Seq<RawV>) -> Seq<LineV> {
    Seq::new(
        cs.len(),
        |i: int| LineV { number: 1 + non_removal_count(cs.take(i)), tag: cs[i].tag, text: cs[i].text },
    )
}

proof fn lemma_non_removal_count_bound(cs: Seq<RawV>)
    ensures
        0 <= non_removal_count(cs) <= cs.len(),
    decreases cs.len(),
{
    if cs.len() > 0 {
        lemma_non_removal_count_bound(cs.drop_last());
    }
}

proof fn lemma_tag_count_bound(cs: Seq<RawV>, t: ChangeType)
    ensures
        0 <= tag_count(cs, t) <= cs.len(),
    decreases cs.len(),
{
    if cs.len() > 0 {
        lemma_tag_count_bound(cs.drop_last(), t);
    }
}

/// Numbers an aligned change sequence and counts its additions and
/// removals. Returns the full, unwindowed script together with the counts.
pub fn build_script(changes: &Vec<RawChange>) -> (r: (Vec<DiffLine>, usize, usize))
    ensures
        lines_view(r.0@) == script_of(raws_view(changes@)),
        r.1 == tag_count(raws_view(changes@), ChangeType::Addition),
        r.2 == tag_count(raws_view(changes@), ChangeType::Removal),
{
    let ghost cs = raws_view(changes@);
    let mut lines: Vec<DiffLine> = Vec::new();
    let mut additions: usize = 0;
    let mut removals: usize = 0;
    let mut current_line: usize = 1;
    let n = changes.len();
    let mut i: usize = 0;
    while i < n
        invariant
            n == changes.len(),
            cs == raws_view(changes@),
            i <= n,
            lines_view(lines@) == script_of(cs).take(i as int),
            additions == tag_count(cs.take(i as int), ChangeType::Addition),
            removals == tag_count(cs.take(i as int), ChangeType::Removal),
            i < n ==> current_line == 1 + non_removal_count(cs.take(i as int)),
            current_line <= i + 1,
        decreases n - i,
    {
        proof {
            assert(cs.take(i + 1).drop_last() =~= cs.take(i as int));
            assert(cs.take(i + 1).last() == cs[i as int]);
            assert(raw_view(changes@[i as int]) == cs[i as int]);
            lemma_tag_count_bound(cs.take(i + 1), ChangeType::Addition);
            lemma_tag_count_bound(cs.take(i + 1), ChangeType::Removal);
            lemma_non_removal_count_bound(cs.take(i + 1));
        }
        let ghost lines0 = lines@;
        let c = &changes[i];
        match c.change_type {
            ChangeType::Addition => {
                additions = additions + 1;
            },
            ChangeType::Removal => {
                removals = removals + 1;
            },
            ChangeType::Context => {
            },
        }
        lines.push(
            DiffLine {
                line_number: current_line,
                change_type: c.change_type,
                content: c.content.clone(),
            },
        );
        if !matches!(c.change_type, ChangeType::Removal) && i + 1 < n {
            current_line = current_line + 1;
        }
        proof {
            let pushed = lines@.last();
            assert(lines@ =~= lines0.push(pushed));
            assert(lines_view(lines@) =~= lines_view(lines0).push(line_view(pushed)));
            assert(line_view(pushed) == script_of(cs)[i as int]);
            assert(script_of(cs).take(i + 1) =~= script_of(cs).take(i as int).push(
                script_of(cs)[i as int],
            ));
        }
        i = i + 1;
    }
    proof {
        assert(cs.take(n as int) =~= cs);
        assert(script_of(cs).take(n as int) =~= script_of(cs));
    }
    (lines, additions, removals)
}

// ---------------------------------------------------------------------------
// Context windowing
// ---------------------------------------------------------------------------
/// Where the leading context of a change run at `i` begins: walk backwards
/// over at most `c` Context records.
pub open spec fn ctx_start(s: Seq<LineV>, i: int, c: int) -> int
    decreases c,
{
    if c <= 0 || i <= 0 {
        i
    } else if s[i - 1].tag is Context {
        ctx_start(s, i - 1, c - 1)
    } else {
        i
    }
}

/// Where the change run starting at `i` ends: the first Context record at
/// or after `i`, or the end of the script.
pub open spec fn run_end(s: Seq<LineV>, i: int) -> int
    decreases s.len() - i,
{
    if i < 0 || i >= s.len() {
        i
    } else if s[i].tag is Context {
        i
    } else {
        run_end(s, i + 1)
    }
}

/// Where the trailing context of a run ending at `j` stops: walk forwards
/// over at most `c` Context records.
pub open spec fn ctx_end(s: Seq<LineV>, j: int, c: int) -> int
    decreases c,
{
    if c <= 0 || j < 0 || j >= s.len() {
        j
    } else if s[j].tag is Context {
        ctx_end(s, j + 1, c - 1)
    } else {
        j
    }
}

/// Appends the leading context records `s[j .. i]` to `acc`, skipping a
/// candidate whose line number equals that of the most recently emitted
/// record. The lookback is deliberately one record deep: a record emitted
/// earlier than that does not prevent a duplicate.
pub open spec fn push_lead(acc: Seq<LineV>, s: Seq<LineV>, j: int, i: int) -> Seq<LineV>
    decreases i - j,
{
    if j >= i {
        acc
    } else {
        let acc2 = if acc.len() == 0 || acc.last().number != s[j].number {
            acc.push(s[j])
        } else {
            acc
        };
        push_lead(acc2, s, j + 1, i)
    }
}

proof fn lemma_run_end_bounds(s: Seq<LineV>, i: int)
    requires
        0 <= i <= s.len(),
    ensures
        i <= run_end(s, i) <= s.len(),
        i < s.len() && !(s[i].tag is Context) ==> run_end(s, i) >= i + 1,
    decreases s.len() - i,
{
    if i < s.len() && !(s[i].tag is Context) {
        lemma_run_end_bounds(s, i + 1);
    }
}

/// Scans the script left to right; at each change run it emits the leading
/// context, the run itself and the trailing context, then resumes at the
/// run's end.
pub open spec fn window_scan(s: Seq<LineV>, c: int, i: int, acc: Seq<LineV>) -> Seq<LineV>
    decreases s.len() - i,
        via window_scan_decreases
{
    if i < 0 || i >= s.len() {
        acc
    } else if s[i].tag is Context {
        window_scan(s, c, i + 1, acc)
    } else {
        let start = ctx_start(s, i, c);
        let end = run_end(s, i);
        let tend = ctx_end(s, end, c);
        window_scan(s, c, end, push_lead(acc, s, start, i) + s.subrange(i, end) + s.subrange(end, tend))
    }
}

#[via_fn]
proof fn window_scan_decreases(s: Seq<LineV>, c: int, i: int, acc: Seq<LineV>) {
    if 0 <= i < s.len() && !(s[i].tag is Context) {
        lemma_run_end_bounds(s, i);
    }
}

/// The context window of a whole script: every change run plus up to `c`
/// unchanged lines immediately around it, in script order, with the
/// single-record-lookback deduplication of overlapping windows.
pub open spec fn window_of(s: Seq<LineV>, c: int) -> Seq<LineV> {
    window_scan(s, c, 0, Seq::empty())
}

/// How many of a script's lines carry the given tag.
pub open spec fn line_tag_count(ls: Seq<LineV>, t: ChangeType) -> int
    decreases ls.len(),
{
    if ls.len() == 0 {
        0
    } else {
        line_tag_count(ls.drop_last(), t) + if ls.last().tag == t {
            1int
        } else {
            0int
        }
    }
}

proof fn lemma_line_tag_count_add(a: Seq<LineV>, b: Seq<LineV>, t: ChangeType)
    ensures
        line_tag_count(a + b, t) == line_tag_count(a, t) + line_tag_count(b, t),
    decreases b.len(),
{
    if b.len() == 0 {
        assert(a + b =~= a);
    } else {
        lemma_line_tag_count_add(a, b.drop_last(), t);
        assert((a + b).drop_last() =~= a + b.drop_last());
        assert((a + b).last() == b.last());
    }
}

proof fn lemma_line_tag_count_all_context(ls: Seq<LineV>, t: ChangeType)
    requires
        !(t is Context),
        forall|m: int| 0 <= m < ls.len() ==> ls[m].tag is Context,
    ensures
        line_tag_count(ls, t) == 0,
    decreases ls.len(),
{
    if ls.len() > 0 {
        assert(forall|m: int|
            0 <= m < ls.drop_last().len() ==> ls.drop_last()[m] == ls[m]);
        lemma_line_tag_count_all_context(ls.drop_last(), t);
    }
}

proof fn lemma_ctx_start_props(s: Seq<LineV>, i: int, c: int)
    requires
        0 <= i <= s.len(),
    ensures
        0 <= ctx_start(s, i, c) <= i,
        forall|m: int| ctx_start(s, i, c) <= m < i ==> s[m].tag is Context,
    decreases c,
{
    if !(c <= 0 || i <= 0) && s[i - 1].tag is Context {
        lemma_ctx_start_props(s, i - 1, c - 1);
    }
}

proof fn lemma_ctx_end_props(s: Seq<LineV>, j: int, c: int)
    requires
        0 <= j <= s.len(),
    ensures
        j <= ctx_end(s, j, c) <= s.len(),
        forall|m: int| j <= m < ctx_end(s, j, c) ==> s[m].tag is Context,
    decreases c,
{
    if !(c <= 0 || j < 0 || j >= s.len()) && s[j].tag is Context {
        lemma_ctx_end_props(s, j + 1, c - 1);
    }
}

proof fn lemma_run_end_props(s: Seq<LineV>, i: int)
    requires
        0 <= i <= s.len(),
    ensures
        i <= run_end(s, i) <= s.len(),
        forall|m: int| i <= m < run_end(s, i) ==> !(s[m].tag is Context),
    decreases s.len() - i,
{
    if i < s.len() && !(s[i].tag is Context) {
        lemma_run_end_props(s, i + 1);
    }
}

proof fn lemma_push_lead_ctx_count(acc: Seq<LineV>, s: Seq<LineV>, j: int, i: int, t: ChangeType)
    requires
        !(t is Context),
        forall|m: int| j <= m < i ==> s[m].tag is Context,
    ensures
        line_tag_count(push_lead(acc, s, j, i), t) == line_tag_count(acc, t),
    decreases i - j,
{
    if j < i {
        let acc2 = if acc.len() == 0 || acc.last().number != s[j].number {
            acc.push(s[j])
        } else {
            acc
        };
        assert(acc.push(s[j]).drop_last() =~= acc);
        lemma_push_lead_ctx_count(acc2, s, j + 1, i, t);
    }
}

proof fn lemma_window_scan_counts(s: Seq<LineV>, c: int, i: int, acc: Seq<LineV>, t: ChangeType)
    requires
        !(t is Context),
        0 <= i <= s.len(),
    ensures
        line_tag_count(window_scan(s, c, i, acc), t) == line_tag_count(acc, t) + line_tag_count(
            s.skip(i),
            t,
        ),
    decreases s.len() - i,
{
    if i >= s.len() {
        assert(s.skip(i) =~= Seq::<LineV>::empty());
    } else if s[i].tag is Context {
        lemma_window_scan_counts(s, c, i + 1, acc, t);
        assert(s.skip(i) =~= seq![s[i]] + s.skip(i + 1));
        lemma_line_tag_count_add(seq![s[i]], s.skip(i + 1), t);
        assert(seq![s[i]].drop_last() =~= Seq::<LineV>::empty());
        assert(line_tag_count(Seq::<LineV>::empty(), t) == 0);
        assert(seq![s[i]].last() == s[i]);
        assert(line_tag_count(seq![s[i]], t) == 0);
    } else {
        let start = ctx_start(s, i, c);
        let end = run_end(s, i);
        let tend = ctx_end(s, end, c);
        lemma_ctx_start_props(s, i, c);
        lemma_run_end_props(s, i);
        lemma_ctx_end_props(s, end, c);
        let lead = push_lead(acc, s, start, i);
        let run = s.subrange(i, end);
        let trail = s.subrange(end, tend);
        lemma_push_lead_ctx_count(acc, s, start, i, t);
        lemma_line_tag_count_add(lead, run, t);
        lemma_line_tag_count_add(lead + run, trail, t);
        assert(forall|m: int| 0 <= m < trail.len() ==> trail[m].tag is Context);
        lemma_line_tag_count_all_context(trail, t);
        lemma_run_end_bounds(s, i);
        lemma_window_scan_counts(s, c, end, lead + run + trail, t);
        assert(s.skip(i) =~= run + s.skip(end));
        lemma_line_tag_count_add(run, s.skip(end), t);
    }
}

/// Windowing prunes only unchanged lines: a script and its context window
/// hold exactly as many records of any changed tag, however close together
/// the change runs sit.
pub proof fn lemma_window_preserves_changes(s: Seq<LineV>, c: int, t: ChangeType)
    requires
        !(t is Context),
    ensures
        line_tag_count(window_of(s, c), t) == line_tag_count(s, t),
{
    lemma_window_scan_counts(s, c, 0, Seq::empty(), t);
    assert(s.skip(0) =~= s);
}

/// Numbering stamps lines but never changes a tag: the script's tag counts
/// are the aligned changes' tag counts.
pub proof fn lemma_script_tag_count(cs: Seq<RawV>, t: ChangeType)
    ensures
        line_tag_count(script_of(cs), t) == tag_count(cs, t),
    decreases cs.len(),
{
    if cs.len() > 0 {
        lemma_script_tag_count(cs.drop_last(), t);
        assert forall|i: int| 0 <= i < cs.len() - 1 implies script_of(cs)[i] == script_of(
            cs.drop_last(),
        )[i] by {
            assert(cs.take(i) =~= cs.drop_last().take(i));
        }
        assert(script_of(cs).drop_last() =~= script_of(cs.drop_last()));
        assert(script_of(cs).last().tag == cs.last().tag);
    }
}

fn copy_line(l: &DiffLine) -> (r: DiffLine)
    ensures
        line_view(r) == line_view(*l),
{
    DiffLine { line_number: l.line_number, change_type: l.change_type, content: l.content.clone() }
}

proof fn lemma_run_end_at(s: Seq<LineV>, i: int, e: int)
    requires
        0 <= i <= e <= s.len(),
        forall|m: int| i <= m < e ==> !(s[m].tag is Context),
        e == s.len() || s[e].tag is Context,
    ensures
        run_end(s, i) == e,
    decreases e - i,
{
    if i < e {
        lemma_run_end_at(s, i + 1, e);
    }
}

/// Keeps only the lines around each change: up to `context` unchanged lines
/// on each side of every maximal run of changed lines. The full script's
/// order is kept; a script without changes windows to nothing.
pub fn filter_context_lines(lines: Vec<DiffLine>, context: usize) -> (r: Vec<DiffLine>)
    ensures
        lines_view(r@) == window_of(lines_view(lines@), context as int),
{
    let ghost s = lines_view(lines@);
    let ghost c0 = context as int;
    if lines.is_empty() {
        proof {
            assert(lines_view(lines@) =~= Seq::<LineV>::empty());
        }
        return lines;
    }
    let n = lines.len();
    let mut result: Vec<DiffLine> = Vec::new();
    proof {
        assert(lines_view(result@) =~= Seq::<LineV>::empty());
    }
    let mut i: usize = 0;
    while i < n
        invariant
            n == lines.len(),
            s == lines_view(lines@),
            c0 == context as int,
            i <= n,
            window_scan(s, c0, i as int, lines_view(result@)) == window_of(s, c0),
        decreases n - i,
    {
        if matches!(lines[i].change_type, ChangeType::Context) {
            proof {
                assert(s[i as int] == line_view(lines@[i as int]));
            }
            i = i + 1;
        } else {
            let ghost acc0 = lines_view(result@);
            proof {
                assert(s[i as int] == line_view(lines@[i as int]));
            }
            // leading context: walk back over at most `context` unchanged lines
            let mut start = i;
            let mut k: usize = 0;
            while start > 0 && k < context && matches!(
                lines[start - 1].change_type,
                ChangeType::Context,
            )
                invariant
                    n == lines.len(),
                    s == lines_view(lines@),
                    c0 == context as int,
                    start <= i < n,
                    k <= context,
                    ctx_start(s, i as int, c0) == ctx_start(s, start as int, c0 - k),
                decreases start,
            {
                proof {
                    assert(s[start - 1] == line_view(lines@[start - 1]));
                }
                start = start - 1;
                k = k + 1;
            }
            proof {
                if start > 0 && k < context {
                    assert(s[start - 1] == line_view(lines@[start - 1]));
                }
                assert(ctx_start(s, start as int, c0 - k) == start);
            }
            // emit the leading context, skipping a line number just emitted
            let mut j = start;
            while j < i
                invariant
                    n == lines.len(),
                    s == lines_view(lines@),
                    j <= i < n,
                    push_lead(lines_view(result@), s, j as int, i as int) == push_lead(
                        acc0,
                        s,
                        start as int,
                        i as int,
                    ),
                decreases i - j,
            {
                proof {
                    assert(s[j as int] == line_view(lines@[j as int]));
                }
                let ghost r0 = lines_view(result@);
                if result.len() == 0 || result[result.len() - 1].line_number != lines[j].line_number {
                    result.push(copy_line(&lines[j]));
                    proof {
                        assert(lines_view(result@) =~= r0.push(s[j as int]));
                    }
                } else {
                    proof {
                        assert(r0.last() == line_view(result@.last()));
                    }
                }
                j = j + 1;
            }
            let ghost acc1 = lines_view(result@);
            proof {
                assert(acc1 == push_lead(acc0, s, start as int, i as int));
            }
            // the change run itself
            let ghost r0 = lines_view(result@);
            result.push(copy_line(&lines[i]));
            proof {
                assert(lines_view(result@) =~= r0.push(s[i as int]));
                assert(s.subrange(i as int, i + 1) =~= Seq::<LineV>::empty().push(s[i as int]));
                assert(lines_view(result@) =~= acc1 + s.subrange(i as int, i + 1));
            }
            let mut end = i + 1;
            while end < n && !matches!(lines[end].change_type, ChangeType::Context)
                invariant
                    n == lines.len(),
                    s == lines_view(lines@),
                    i < end <= n,
                    forall|m: int| i <= m < end ==> !(s[m].tag is Context),
                    lines_view(result@) == acc1 + s.subrange(i as int, end as int),
                decreases n - end,
            {
                proof {
                    assert(s[end as int] == line_view(lines@[end as int]));
                }
                let ghost r0 = lines_view(result@);
                result.push(copy_line(&lines[end]));
                proof {
                    assert(lines_view(result@) =~= r0.push(s[end as int]));
                    assert(s.subrange(i as int, end + 1) =~= s.subrange(i as int, end as int).push(
                        s[end as int],
                    ));
                }
                end = end + 1;
            }
            proof {
                if end < n {
                    assert(s[end as int] == line_view(lines@[end as int]));
                }
                lemma_run_end_at(s, i as int, end as int);
            }
            let ghost acc2 = lines_view(result@);
            // trailing context: up to `context` unchanged lines after the run
            let mut t = end;
            let mut kk: usize = 0;
            while t < n && kk < context && matches!(lines[t].change_type, ChangeType::Context)
                invariant
                    n == lines.len(),
                    s == lines_view(lines@),
                    c0 == context as int,
                    end <= t <= n,
                    kk <= context,
                    ctx_end(s, end as int, c0) == ctx_end(s, t as int, c0 - kk),
                    lines_view(result@) == acc2 + s.subrange(end as int, t as int),
                decreases n - t,
            {
                proof {
                    assert(s[t as int] == line_view(lines@[t as int]));
                }
                let ghost r0 = lines_view(result@);
                result.push(copy_line(&lines[t]));
                proof {
                    assert(lines_view(result@) =~= r0.push(s[t as int]));
                    assert(s.subrange(end as int, t + 1) =~= s.subrange(end as int, t as int).push(
                        s[t as int],
                    ));
                }
                t = t + 1;
                kk = kk + 1;
            }
            proof {
                if t < n && kk < context {
                    assert(s[t as int] == line_view(lines@[t as int]));
                }
                assert(ctx_end(s, t as int, c0 - kk) == t);
                assert(lines_view(result@) =~= push_lead(acc0, s, start as int, i as int) + s.subrange(
                    i as int,
                    end as int,
                ) + s.subrange(end as int, t as int));
                assert(window_scan(s, c0, i as int, acc0) == window_scan(
                    s,
                    c0,
                    end as int,
                    lines_view(result@),
                ));
            }
            i = end;
        }
    }
    result
}

// ---------------------------------------------------------------------------
// Line alignment: the trusted boundary with the `similar` crate
// ---------------------------------------------------------------------------
/// Where the first line terminator in `s` sits, or `s.len()` if none.
pub open spec fn first_break(s: Seq<char>) -> int
    decreases s.len(),
{
    if s.len() == 0 {
        0
    } else if s[0] == '\n' || s[0] == '\r' {
        0
    } else {
        1 + first_break(s.drop_first())
    }
}

proof fn lemma_first_break_bounds(s: Seq<char>)
    ensures
        0 <= first_break(s) <= s.len(),
    decreases s.len(),
{
    if s.len() > 0 && !(s[0] == '\n' || s[0] == '\r') {
        lemma_first_break_bounds(s.drop_first());
    }
}

/// The contents of a text's lines, in order. A line ends at a `'\n'`, at a
/// `"\r\n"` pair, or at a lone `'\r'`; only a trailing `'\n'` is removed
/// from the content, and a trailing terminator opens no empty final line.
pub open spec fn line_contents(s: Seq<char>) -> Seq<Seq<char>>
    decreases s.len(),
    via line_contents_decreases
{
    if s.len() == 0 {
        Seq::empty()
    } else {
        let k = first_break(s);
        if k >= s.len() {
            seq![s]
        } else if s[k] == '\n' {
            seq![s.take(k)] + line_contents(s.skip(k + 1))
        } else if k + 1 < s.len() && s[k + 1] == '\n' {
            seq![s.take(k + 1)] + line_contents(s.skip(k + 2))
        } else {
            seq![s.take(k + 1)] + line_contents(s.skip(k + 1))
        }
    }
}

#[via_fn]
proof fn line_contents_decreases(s: Seq<char>) {
    lemma_first_break_bounds(s);
}

/// The old text's lines as a change sequence tells them: the contents of
/// every change that is not an addition, in order.
pub open spec fn old_side(cs: Seq<RawV>) -> Seq<Seq<char>>
    decreases cs.len(),
{
    if cs.len() == 0 {
        Seq::empty()
    } else {
        let rest = old_side(cs.drop_last());
        if cs.last().tag is Addition {
            rest
        } else {
            rest.push(cs.last().text)
        }
    }
}

/// The new text's lines as a change sequence tells them: the contents of
/// every change that is not a removal, in order.
pub open spec fn new_side(cs: Seq<RawV>) -> Seq<Seq<char>>
    decreases cs.len(),
{
    if cs.len() == 0 {
        Seq::empty()
    } else {
        let rest = new_side(cs.drop_last());
        if cs.last().tag is Removal {
            rest
        } else {
            rest.push(cs.last().text)
        }
    }
}

pub open spec fn all_context(cs: Seq<RawV>) -> bool {
    forall|i: int| 0 <= i < cs.len() ==> cs[i].tag is Context
}

/// The change sequence that the `similar` crate's line diff computes for a
/// pair of texts; a function of the two texts alone.
pub uninterp spec fn aligned_changes(old_text: Seq<char>, new_text: Seq<char>) -> Seq<RawV>;

/// Relies on `similar::TextDiff::from_lines` and `iter_all_changes`: the
/// changes of a line diff, in order. Every change carries one line of the
/// inputs; the non-inserted values spell out the old text's lines and the
/// non-deleted values the new text's lines; identical inputs yield only
/// Equal changes. Tags arrive here as Context/Removal/Addition and each
/// value's trailing newline is removed.
#[verifier::external_body]
fn align_lines(old_text: &str, new_text: &str) -> (r: Vec<RawChange>)
    ensures
        raws_view(r@) == aligned_changes(old_text@, new_text@),
        old_side(raws_view(r@)) == line_contents(old_text@),
        new_side(raws_view(r@)) == line_contents(new_text@),
        old_text@ == new_text@ ==> all_context(raws_view(r@)),
{
    let diff = similar::TextDiff::from_lines(old_text, new_text);
    let mut changes: Vec<RawChange> = Vec::new();
    for change in diff.iter_all_changes() {
        let change_type = match change.tag() {
            similar::ChangeTag::Equal => ChangeType::Context,
            similar::ChangeTag::Delete => ChangeType::Removal,
            similar::ChangeTag::Insert => ChangeType::Addition,
        };
        let content = change.value().trim_end_matches('\n').to_string();
        changes.push(RawChange { change_type, content });
    }
    changes
}

proof fn lemma_all_context_tag_counts(cs: Seq<RawV>)
    requires
        all_context(cs),
    ensures
        tag_count(cs, ChangeType::Addition) == 0,
        tag_count(cs, ChangeType::Removal) == 0,
    decreases cs.len(),
{
    if cs.len() > 0 {
        assert(forall|i: int|
            0 <= i < cs.drop_last().len() ==> cs.drop_last()[i] == cs[i]);
        lemma_all_context_tag_counts(cs.drop_last());
    }
}

proof fn lemma_window_scan_all_context(s: Seq<LineV>, c: int, i: int, acc: Seq<LineV>)
    requires
        0 <= i,
        forall|j: int| i <= j < s.len() ==> s[j].tag is Context,
    ensures
        window_scan(s, c, i, acc) == acc,
    decreases s.len() - i,
{
    if i < s.len() {
        lemma_window_scan_all_context(s, c, i + 1, acc);
    }
}

proof fn lemma_sides_cover(cs: Seq<RawV>)
    ensures
        cs.len() <= old_side(cs).len() + new_side(cs).len(),
    decreases cs.len(),
{
    if cs.len() > 0 {
        lemma_sides_cover(cs.drop_last());
    }
}

/// Computes a file's change summary: the two texts are aligned line by
/// line, every record is numbered under the running-counter policy, the
/// addition and removal counts are taken over the whole script, and the
/// stored lines are pruned to `context_lines` of context around each
/// change. Identical texts yield only context (so zero counts and no
/// windowed lines), and empty texts yield an empty script.
pub fn create_diff(file_path: &str, old_content: &str, new_content: &str, context_lines: usize) -> (d:
    FileDiff)
    ensures
        d.file_path@ == file_path@,
        d.additions == tag_count(aligned_changes(old_content@, new_content@), ChangeType::Addition),
        d.removals == tag_count(aligned_changes(old_content@, new_content@), ChangeType::Removal),
        lines_view(d.lines@) == window_of(
            script_of(aligned_changes(old_content@, new_content@)),
            context_lines as int,
        ),
        d.additions == line_tag_count(lines_view(d.lines@), ChangeType::Addition),
        d.removals == line_tag_count(lines_view(d.lines@), ChangeType::Removal),
        old_content@ == new_content@ ==> all_context(aligned_changes(old_content@, new_content@))
            && d.additions == 0 && d.removals == 0 && d.lines@.len() == 0,
        old_content@.len() == 0 && new_content@.len() == 0 ==> aligned_changes(
            old_content@,
            new_content@,
        ).len() == 0,
{
    let ghost cs = aligned_changes(old_content@, new_content@);
    let changes = align_lines(old_content, new_content);
    let script = build_script(&changes);
    let (lines, additions, removals) = script;
    let filtered = filter_context_lines(lines, context_lines);
    proof {
        lemma_script_tag_count(cs, ChangeType::Addition);
        lemma_script_tag_count(cs, ChangeType::Removal);
        lemma_window_preserves_changes(script_of(cs), context_lines as int, ChangeType::Addition);
        lemma_window_preserves_changes(script_of(cs), context_lines as int, ChangeType::Removal);
        if old_content@ == new_content@ {
            lemma_all_context_tag_counts(cs);
            assert(forall|j: int|
                0 <= j < script_of(cs).len() ==> script_of(cs)[j].tag is Context);
            lemma_window_scan_all_context(script_of(cs), context_lines as int, 0, Seq::empty());
            assert(lines_view(filtered@).len() == filtered@.len());
        }
        if old_content@.len() == 0 && new_content@.len() == 0 {
            lemma_sides_cover(cs);
        }
    }
    FileDiff { file_path: file_path.to_owned(), additions, removals, lines: filtered }
}

// ---------------------------------------------------------------------------
// Rendering
// ---------------------------------------------------------------------------
/// The plural suffix of a count: empty for exactly one, "s" otherwise.
pub open spec fn plural(n: int) -> Seq<char> {
    if n == 1 {
        Seq::empty()
    } else {
        "s"@
    }
}

/// The five-character tag column of a rendered line.
pub open spec fn tag_column(t: ChangeType) -> Seq<char> {
    match t {
        ChangeType::Context => "     "@,
        ChangeType::Addition => "    +"@,
        ChangeType::Removal => "    -"@,
    }
}

/// One rendered script line: four spaces, the line number right-aligned to
/// width four, the tag column, a space, the content, a newline.
pub open spec fn rendered_line(l: LineV) -> Seq<char> {
    "    "@ + spaces(4 - dec_digits(l.number).len()) + dec_digits(l.number) + tag_column(l.tag)
        + " "@ + l.text + "\n"@
}

pub open spec fn rendered_lines(ls: Seq<LineV>) -> Seq<char>
    decreases ls.len(),
{
    if ls.len() == 0 {
        Seq::empty()
    } else {
        rendered_lines(ls.drop_last()) + rendered_line(ls.last())
    }
}

/// The summary line of a diff block, with pluralized counts.
pub open spec fn rendered_diff_summary(d: FileDiff) -> Seq<char> {
    "  \u{23bf}  Updated "@ + d.file_path@ + " with "@ + dec_digits(d.additions as int)
        + " addition"@ + plural(d.additions as int) + " and "@ + dec_digits(d.removals as int)
        + " removal"@ + plural(d.removals as int) + "\n"@
}

/// A whole rendered report: the header line, then the diff block, or the
/// details line, or nothing.
pub open spec fn rendered_output(o: ToolOutput) -> Seq<char> {
    let header = "\u{23fa} "@ + o.tool_name@ + "("@ + o.summary@ + ")\n"@;
    header + (match o.diff {
        Option::Some(d) => rendered_diff_summary(d) + rendered_lines(lines_view(d.lines@)),
        Option::None => match o.details {
            Option::Some(t) => "  \u{23bf}  "@ + t@ + "\n"@,
            Option::None => Seq::<char>::empty(),
        },
    })
}

impl ToolOutput {
    /// A header-only report for the named tool.
    pub fn new(tool_name: &str, summary: &str) -> (r: ToolOutput)
        ensures
            r.tool_name@ == tool_name@,
            r.summary@ == summary@,
            r.details is None,
            r.diff is None,
    {
        ToolOutput {
            tool_name: tool_name.to_owned(),
            summary: summary.to_owned(),
            details: None,
            diff: None,
        }
    }

    /// The same report with a details line.
    pub fn with_details(self, details: String) -> (r: ToolOutput)
        ensures
            r.tool_name == self.tool_name,
            r.summary == self.summary,
            r.details == Some(details),
            r.diff == self.diff,
    {
        ToolOutput { details: Some(details), ..self }
    }

    /// The same report with a diff block.
    pub fn with_diff(self, diff: FileDiff) -> (r: ToolOutput)
        ensures
            r.tool_name == self.tool_name,
            r.summary == self.summary,
            r.details == self.details,
            r.diff == Some(diff),
    {
        ToolOutput { diff: Some(diff), ..self }
    }

    /// Renders the report into its exact textual form: pure formatting, no
    /// side effects.
    #[verifier::rlimit(50)]
    pub fn format(&self) -> (r: String)
        ensures
            r@ == rendered_output(*self),
    {
        let mut out = String::new();
        out.append("\u{23fa} ");
        out.append(self.tool_name.as_str());
        out.append("(");
        out.append(self.summary.as_str());
        out.append(")\n");
        if let Some(d) = &self.diff {
            out.append("  \u{23bf}  Updated ");
            out.append(d.file_path.as_str());
            out.append(" with ");
            let a = usize_string(d.additions);
            out.append(a.as_str());
            out.append(" addition");
            if d.additions != 1 {
                out.append("s");
            }
            out.append(" and ");
            let rm = usize_string(d.removals);
            out.append(rm.as_str());
            out.append(" removal");
            if d.removals != 1 {
                out.append("s");
            }
            out.append("\n");
            let ghost pre = out@;
            let ghost ls = lines_view(d.lines@);
            proof {
                assert(pre =~= "\u{23fa} "@ + self.tool_name@ + "("@ + self.summary@ + ")\n"@
                    + rendered_diff_summary(*d));
                assert(ls.take(0) =~= Seq::<LineV>::empty());
                assert(pre + rendered_lines(ls.take(0)) =~= pre);
            }
            let n = d.lines.len();
            let mut idx: usize = 0;
            while idx < n
                invariant
                    n == d.lines.len(),
                    ls == lines_view(d.lines@),
                    idx <= n,
                    out@ == pre + rendered_lines(ls.take(idx as int)),
                decreases n - idx,
            {
                let l = &d.lines[idx];
                proof {
                    assert(ls[idx as int] == line_view(d.lines@[idx as int]));
                }
                out.append("    ");
                let num = pad_left(usize_string(l.line_number), 4);
                out.append(num.as_str());
                match l.change_type {
                    ChangeType::Context => out.append("     "),
                    ChangeType::Addition => out.append("    +"),
                    ChangeType::Removal => out.append("    -"),
                }
                out.append(" ");
                out.append(l.content.as_str());
                out.append("\n");
                proof {
                    assert(ls.take(idx + 1).drop_last() =~= ls.take(idx as int));
                    assert(ls.take(idx + 1).last() == ls[idx as int]);
                    assert(out@ =~= pre + rendered_lines(ls.take(idx + 1)));
                }
                idx = idx + 1;
            }
            proof {
                assert(ls.take(n as int) =~= ls);
                assert(out@ =~= rendered_output(*self));
            }
        } else if let Some(t) = &self.details {
            out.append("  \u{23bf}  ");
            out.append(t.as_str());
            out.append("\n");
            proof {
                assert(out@ =~= rendered_output(*self));
            }
        } else {
            proof {
                assert(out@ =~= rendered_output(*self));
            }
        }
        out
    }
}

} // verus!
