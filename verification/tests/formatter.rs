use ada::tools::formatter::{
    build_script, create_diff, filter_context_lines, ChangeType, DiffLine, FileDiff, RawChange,
    ToolOutput,
};

fn line(number: usize, tag: ChangeType, content: &str) -> DiffLine {
    DiffLine { line_number: number, change_type: tag, content: content.to_string() }
}

fn assert_line(l: &DiffLine, number: usize, tag: ChangeType, content: &str) {
    assert_eq!(l.line_number, number);
    assert_eq!(l.change_type, tag);
    assert_eq!(l.content, content);
}

#[test]
fn noop_diff_is_all_context() {
    let d = create_diff("f.txt", "x\ny\nz\n", "x\ny\nz\n", 2);
    assert_eq!(d.additions, 0);
    assert_eq!(d.removals, 0);
    assert!(d.lines.is_empty());
}

#[test]
fn numbering_policy_shares_removal_number() {
    let d = create_diff("f.txt", "a\nb\nc\n", "a\nc\n", 10);
    assert_eq!(d.additions, 0);
    assert_eq!(d.removals, 1);
    assert_eq!(d.lines.len(), 3);
    assert_line(&d.lines[0], 1, ChangeType::Context, "a");
    assert_line(&d.lines[1], 2, ChangeType::Removal, "b");
    assert_line(&d.lines[2], 2, ChangeType::Context, "c");
}

#[test]
fn counts_come_from_the_unwindowed_script() {
    // with zero context the window keeps only the changed lines, yet the
    // counts still describe the whole file
    let d = create_diff("f.txt", "a\nb\nc\nd\n", "a\nB\nc\nD\n", 0);
    assert_eq!(d.additions, 2);
    assert_eq!(d.removals, 2);
    for l in &d.lines {
        assert!(!matches!(l.change_type, ChangeType::Context));
    }
    assert_eq!(d.lines.iter().filter(|l| matches!(l.change_type, ChangeType::Addition)).count(), 2);
    assert_eq!(d.lines.iter().filter(|l| matches!(l.change_type, ChangeType::Removal)).count(), 2);
}

#[test]
fn windowing_boundary_keeps_one_context_line_each_side() {
    let mut script = Vec::new();
    for i in 0..5 {
        script.push(line(i + 1, ChangeType::Context, "ctx"));
    }
    script.push(line(6, ChangeType::Addition, "new"));
    for i in 0..5 {
        script.push(line(i + 7, ChangeType::Context, "ctx"));
    }
    let w = filter_context_lines(script, 1);
    assert_eq!(w.len(), 3);
    assert_line(&w[0], 5, ChangeType::Context, "ctx");
    assert_line(&w[1], 6, ChangeType::Addition, "new");
    assert_line(&w[2], 7, ChangeType::Context, "ctx");
}

#[test]
fn windowing_merges_close_runs_without_duplicates() {
    let script = vec![
        line(1, ChangeType::Context, "a"),
        line(2, ChangeType::Addition, "x"),
        line(3, ChangeType::Context, "b"),
        line(4, ChangeType::Addition, "y"),
        line(5, ChangeType::Context, "c"),
    ];
    let w = filter_context_lines(script, 2);
    assert_eq!(w.len(), 5);
    assert_line(&w[0], 1, ChangeType::Context, "a");
    assert_line(&w[1], 2, ChangeType::Addition, "x");
    assert_line(&w[2], 3, ChangeType::Context, "b");
    assert_line(&w[3], 4, ChangeType::Addition, "y");
    assert_line(&w[4], 5, ChangeType::Context, "c");
}

#[test]
fn windowing_lookback_dedup_is_one_record_deep() {
    // two context lines shared by both windows: the single-record lookback
    // re-emits them, by design
    let script = vec![
        line(1, ChangeType::Addition, "x"),
        line(2, ChangeType::Context, "a"),
        line(3, ChangeType::Context, "b"),
        line(4, ChangeType::Addition, "y"),
    ];
    let w = filter_context_lines(script, 3);
    let numbers: Vec<usize> = w.iter().map(|l| l.line_number).collect();
    assert_eq!(numbers, vec![1, 2, 3, 2, 3, 4]);
}

#[test]
fn empty_inputs_give_an_empty_script() {
    let d = create_diff("f.txt", "", "", 2);
    assert_eq!(d.additions, 0);
    assert_eq!(d.removals, 0);
    assert!(d.lines.is_empty());
    let w = filter_context_lines(Vec::new(), 2);
    assert!(w.is_empty());
}

#[test]
fn no_context_without_a_change_to_anchor_it() {
    let script = vec![
        line(1, ChangeType::Context, "a"),
        line(2, ChangeType::Context, "b"),
    ];
    let w = filter_context_lines(script, 2);
    assert!(w.is_empty());
}

#[test]
fn rendering_states_path_and_pluralized_counts() {
    let diff = FileDiff {
        file_path: "x.txt".to_string(),
        additions: 1,
        removals: 2,
        lines: Vec::new(),
    };
    let out = ToolOutput::new("Edit", "x.txt").with_diff(diff).format();
    assert!(out.contains("Updated x.txt with 1 addition and 2 removals"));
}

#[test]
fn rendering_uses_plural_for_zero() {
    let diff = FileDiff {
        file_path: "y.txt".to_string(),
        additions: 0,
        removals: 0,
        lines: Vec::new(),
    };
    let out = ToolOutput::new("Edit", "y.txt").with_diff(diff).format();
    assert!(out.contains("Updated y.txt with 0 additions and 0 removals"));
}

#[test]
fn end_to_end_change_in_the_middle() {
    let d = create_diff("f.txt", "line1\nline2\nline3\n", "line1\nCHANGED\nline3\n", 2);
    assert_eq!(d.additions, 1);
    assert_eq!(d.removals, 1);
    assert_eq!(d.lines.len(), 4);
    assert_line(&d.lines[0], 1, ChangeType::Context, "line1");
    assert_line(&d.lines[1], 2, ChangeType::Removal, "line2");
    assert_line(&d.lines[2], 2, ChangeType::Addition, "CHANGED");
    assert_line(&d.lines[3], 3, ChangeType::Context, "line3");
    let out = ToolOutput::new("Edit", "f.txt").with_diff(d).format();
    let expected = "\u{23fa} Edit(f.txt)\n\
                    \x20 \u{23bf}  Updated f.txt with 1 addition and 1 removal\n\
                    \x20      1      line1\n\
                    \x20      2    - line2\n\
                    \x20      2    + CHANGED\n\
                    \x20      3      line3\n";
    assert_eq!(out, expected);
}

#[test]
fn header_only_report() {
    let out = ToolOutput::new("Git", "status").format();
    assert_eq!(out, "\u{23fa} Git(status)\n");
}

#[test]
fn details_line_report() {
    let out = ToolOutput::new("Delete", "old.txt")
        .with_details("Deleted file old.txt".to_string())
        .format();
    assert_eq!(out, "\u{23fa} Delete(old.txt)\n  \u{23bf}  Deleted file old.txt\n");
}

#[test]
fn wide_line_numbers_are_not_truncated() {
    let diff = FileDiff {
        file_path: "big.txt".to_string(),
        additions: 1,
        removals: 0,
        lines: vec![line(12345, ChangeType::Addition, "tail")],
    };
    let out = ToolOutput::new("Edit", "big.txt").with_diff(diff).format();
    assert!(out.contains("    12345    + tail\n"));
}

#[test]
fn build_script_numbers_and_counts() {
    let changes = vec![
        RawChange { change_type: ChangeType::Context, content: "a".to_string() },
        RawChange { change_type: ChangeType::Removal, content: "b".to_string() },
        RawChange { change_type: ChangeType::Removal, content: "c".to_string() },
        RawChange { change_type: ChangeType::Addition, content: "d".to_string() },
        RawChange { change_type: ChangeType::Context, content: "e".to_string() },
    ];
    let (script, additions, removals) = build_script(&changes);
    assert_eq!(additions, 1);
    assert_eq!(removals, 2);
    let numbered: Vec<usize> = script.iter().map(|l| l.line_number).collect();
    // both removals share the number of the addition that follows them
    assert_eq!(numbered, vec![1, 2, 2, 2, 3]);
}

#[test]
fn windowing_clamps_at_script_edges() {
    let script = vec![
        line(1, ChangeType::Addition, "first"),
        line(2, ChangeType::Context, "a"),
        line(3, ChangeType::Context, "b"),
        line(4, ChangeType::Context, "c"),
        line(5, ChangeType::Removal, "last"),
    ];
    let w = filter_context_lines(script, 2);
    let numbers: Vec<usize> = w.iter().map(|l| l.line_number).collect();
    // the two windows meet in the middle; the shared context line is not
    // re-added
    assert_eq!(numbers, vec![1, 2, 3, 4, 5]);
}

#[test]
fn windowing_keeps_a_whole_run_together() {
    let script = vec![
        line(1, ChangeType::Context, "a"),
        line(2, ChangeType::Removal, "x"),
        line(2, ChangeType::Removal, "y"),
        line(2, ChangeType::Addition, "z"),
        line(3, ChangeType::Context, "b"),
    ];
    let w = filter_context_lines(script, 0);
    assert_eq!(w.len(), 3);
    assert_line(&w[0], 2, ChangeType::Removal, "x");
    assert_line(&w[1], 2, ChangeType::Removal, "y");
    assert_line(&w[2], 2, ChangeType::Addition, "z");
}

#[test]
fn diff_of_empty_against_content_is_all_additions() {
    let d = create_diff("f.txt", "", "a\nb\n", 2);
    assert_eq!(d.additions, 2);
    assert_eq!(d.removals, 0);
    assert_eq!(d.lines.len(), 2);
    assert_line(&d.lines[0], 1, ChangeType::Addition, "a");
    assert_line(&d.lines[1], 2, ChangeType::Addition, "b");
}

#[test]
fn diff_of_content_against_empty_is_all_removals() {
    let d = create_diff("f.txt", "a\nb\n", "", 2);
    assert_eq!(d.additions, 0);
    assert_eq!(d.removals, 2);
    assert_eq!(d.lines.len(), 2);
    // every removal is stamped with the position it was removed before,
    // and nothing follows in the new file
    assert_line(&d.lines[0], 1, ChangeType::Removal, "a");
    assert_line(&d.lines[1], 1, ChangeType::Removal, "b");
}

#[test]
fn trailing_newline_opens_no_phantom_line() {
    let d = create_diff("f.txt", "a\n", "a\nb\n", 5);
    assert_eq!(d.additions, 1);
    assert_eq!(d.removals, 0);
    assert_eq!(d.lines.len(), 2);
    assert_line(&d.lines[0], 1, ChangeType::Context, "a");
    assert_line(&d.lines[1], 2, ChangeType::Addition, "b");
}
