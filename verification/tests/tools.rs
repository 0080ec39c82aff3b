use ada::config::Config;
use ada::routing;
use ada::scanner::{FileInfo, ProjectScanner};
use ada::tools::edit::Edit;
use ada::tools::execute::Execute;
use ada::tools::file_ops::{FileOps, FileOpsPlan};
use ada::tools::git::Git;
use ada::tools::glob::{Glob, GlobPattern};
use ada::tools::grep::{Grep, Pattern};
use ada::tools::list_directory::{EntryKind, ListDirectory, ListedEntry};
use ada::tools::read_file::ReadFile;
use ada::tools::tree::{Tree, TreeEntry};
use ada::tools::webfetch::WebFetch;
use ada::tools::write_files::WriteFiles;
use ada::ui::{App, MessageRole};

fn file(path: &str, is_dir: bool, size: u64) -> FileInfo {
    FileInfo { path: path.to_string(), is_dir, size }
}

#[test]
fn edit_reports_missing_text() {
    let r = Edit::apply("fn main() {}", "nothing", "x", false);
    match r {
        Err(e) => assert_eq!(e.0, "String not found in file: 'nothing'"),
        Ok(_) => panic!("edit should fail"),
    }
}

#[test]
fn edit_replaces_first_or_all() {
    let first = Edit::apply("a-a-a", "a", "b", false).unwrap();
    assert_eq!(first, "b-a-a");
    let all = Edit::apply("a-a-a", "a", "b", true).unwrap();
    assert_eq!(all, "b-b-b");
}

#[test]
fn execute_report_combines_streams() {
    assert_eq!(Execute::render_output("out", "", true, ""), "out");
    assert_eq!(Execute::render_output("", "oops", true, ""), "STDERR:\noops");
    assert_eq!(Execute::render_output("out", "oops", true, ""), "out\nSTDERR:\noops");
    assert_eq!(
        Execute::render_output("out", "", false, "exit status: 1"),
        "out\nExit code: exit status: 1"
    );
    assert_eq!(
        Execute::render_output("", "", true, ""),
        "Command executed successfully (no output)"
    );
}

#[test]
fn git_report_and_failure() {
    assert_eq!(Git::render_output("ok", "", true).unwrap(), "ok");
    assert_eq!(Git::render_output("", "note", true).unwrap(), "note");
    assert_eq!(Git::render_output("a", "b", true).unwrap(), "a\nb");
    assert_eq!(Git::render_output("", "", true).unwrap(), "Command completed successfully");
    let err = Git::render_output("out", "bad", false).unwrap_err();
    assert_eq!(err.0, "Git command failed:\noutbad");
}

#[test]
fn file_ops_plans_and_rejects() {
    assert!(matches!(FileOps::plan("delete", None), Ok(FileOpsPlan::Delete)));
    match FileOps::plan("move", Some("to.txt".to_string())) {
        Ok(FileOpsPlan::Move { destination }) => assert_eq!(destination, "to.txt"),
        _ => panic!("move should plan"),
    }
    match FileOps::plan("copy", None) {
        Err(e) => assert_eq!(e.0, "Destination required for copy operation"),
        _ => panic!("copy without destination should fail"),
    }
    match FileOps::plan("shred", None) {
        Err(e) => assert_eq!(e.0, "Unknown operation: shred. Use 'delete', 'move', or 'copy'"),
        _ => panic!("unknown operation should fail"),
    }
}

#[test]
fn file_ops_details_lines() {
    assert_eq!(FileOps::delete_details("file", "a.txt"), "Deleted file a.txt");
    assert_eq!(FileOps::move_details("a", "b"), "Moved a to b");
    assert_eq!(FileOps::copy_details("a", "b"), "Copied a to b");
}

#[test]
fn grep_matches_lines_with_numbers() {
    let p = Pattern::new("ab+c").unwrap();
    let out = Grep::search_content("src/x.rs", "zabbc\nnope\nabc", &p);
    assert_eq!(out, vec!["src/x.rs:1: zabbc", "src/x.rs:3: abc"]);
}

#[test]
fn grep_case_insensitive_prefix() {
    let pat = Grep::effective_pattern("abc", true);
    assert_eq!(pat, "(?i)abc");
    let p = Pattern::new(&pat).unwrap();
    let out = Grep::search_content("f", "xAbC", &p);
    assert_eq!(out, vec!["f:1: xAbC"]);
}

#[test]
fn grep_rejects_bad_pattern_and_notes_empty_results() {
    match Pattern::new("(") {
        Err(e) => assert!(e.0.starts_with("Invalid regex pattern: ")),
        Ok(_) => panic!("bad pattern should fail"),
    }
    assert_eq!(Grep::finalize_results(Vec::new()), vec!["No matches found"]);
    let kept = Grep::finalize_results(vec!["hit".to_string()]);
    assert_eq!(kept, vec!["hit"]);
}

#[test]
fn glob_filters_matching_files() {
    let p = GlobPattern::new("*.rs").unwrap();
    let files = vec![
        file("main.rs", false, 1),
        file("notes.txt", false, 1),
        file("dir.rs", true, 0),
        file("lib.rs", false, 1),
    ];
    let out = Glob::filter_matches(&files, &p);
    assert_eq!(out, vec!["main.rs", "lib.rs"]);
    assert_eq!(Glob::finalize_results(Vec::new()), vec!["No files matched the pattern"]);
}

#[test]
fn glob_rejects_bad_pattern() {
    match GlobPattern::new("a{") {
        Err(e) => assert!(e.0.starts_with("Invalid glob pattern: ")),
        Ok(_) => panic!("bad glob should fail"),
    }
}

#[test]
fn listing_labels_sorts_and_hides() {
    let entries = vec![
        ListedEntry { name: "zeta".to_string(), kind: EntryKind::File },
        ListedEntry { name: ".git".to_string(), kind: EntryKind::Dir },
        ListedEntry { name: "alpha".to_string(), kind: EntryKind::Dir },
        ListedEntry { name: "link".to_string(), kind: EntryKind::Link },
    ];
    let out = ListDirectory::render_entries(&entries, false);
    assert_eq!(out, vec!["DIR  alpha", "FILE zeta", "LINK link"]);
    let all = ListDirectory::render_entries(&entries, true);
    assert_eq!(all, vec!["DIR  .git", "DIR  alpha", "FILE zeta", "LINK link"]);
    let empty = ListDirectory::render_entries(&Vec::new(), true);
    assert_eq!(empty, vec!["Empty directory"]);
}

#[test]
fn read_file_numbers_lines() {
    let out = ReadFile::number_content("alpha\nbeta");
    assert_eq!(out, "     1\u{2192}alpha\n     2\u{2192}beta");
    assert_eq!(ReadFile::number_content(""), "");
    // a trailing line feed opens no extra line, and a carriage return
    // before it is stripped
    let crlf = ReadFile::number_content("a\r\nb\n");
    assert_eq!(crlf, "     1\u{2192}a\n     2\u{2192}b");
}

#[test]
fn tree_sorts_and_draws() {
    let entries = vec![
        TreeEntry { name: "deep.rs".to_string(), depth: 2, is_dir: false },
        TreeEntry { name: "src".to_string(), depth: 1, is_dir: true },
        TreeEntry { name: "README".to_string(), depth: 1, is_dir: false },
    ];
    let sorted = Tree::sort_entries(entries);
    let names: Vec<&str> = sorted.iter().map(|e| e.name.as_str()).collect();
    assert_eq!(names, vec!["README", "src", "deep.rs"]);
    let drawn = Tree::render(".", &sorted);
    assert_eq!(
        drawn,
        ".\n\u{251c}\u{2500} \u{1f4c4} README\n\u{251c}\u{2500} \u{1f4c1} src\n  \u{251c}\u{2500} \u{1f4c4} deep.rs\n"
    );
}

#[test]
fn webfetch_truncates_long_bodies() {
    let short = WebFetch::render_response("hello".to_string());
    assert_eq!(short, "hello");
    let long: String = "a".repeat(100_001);
    let out = WebFetch::render_response(long);
    assert!(out.starts_with(&"a".repeat(100_000)));
    assert!(out.ends_with("... (truncated, total size: 100001 characters)"));
    assert_eq!(out.len(), 100_000 + "... (truncated, total size: 100001 characters)".len());
}

#[test]
fn write_files_joins_reports() {
    let outputs = vec!["one".to_string(), "two".to_string(), "three".to_string()];
    assert_eq!(WriteFiles::combine_reports(&outputs), "one\ntwo\nthree");
    assert_eq!(WriteFiles::combine_reports(&vec!["solo".to_string()]), "solo");
    assert_eq!(WriteFiles::combine_reports(&Vec::new()), "");
}

#[test]
fn scanner_finds_files_by_name() {
    let s = ProjectScanner::new("proj");
    assert_eq!(s.root(), "proj");
    let files = vec![
        file("proj/src/main.rs", false, 10),
        file("proj/src", true, 0),
        file("proj/main.txt", false, 5),
        file("proj/other.rs", false, 7),
    ];
    let found = s.find_files(&files, "main");
    assert_eq!(found, vec!["proj/src/main.rs", "proj/main.txt"]);
}

#[test]
fn scanner_counts_and_sums() {
    let s = ProjectScanner::new(".");
    let files = vec![
        file("a", false, 10),
        file("d", true, 0),
        file("b", false, 32),
        file("e", true, 0),
    ];
    let stats = s.get_stats(&files);
    assert_eq!(stats.total_files, 2);
    assert_eq!(stats.total_dirs, 2);
    assert_eq!(stats.total_size, 42);
}

#[test]
fn config_defaults_and_paths() {
    let c = Config::default();
    assert_eq!(c.model, "gpt-4");
    assert_eq!(c.max_tokens, 4096);
    assert_eq!(c.multi_turn_depth, 10);
    assert!(c.enable_direct_commands);
    assert!(c.show_intent);
    assert_eq!(Config::config_dir("/home/u"), "/home/u/.ada");
    assert_eq!(Config::config_file_path("/home/u"), "/home/u/.ada/config");
}

#[test]
fn app_keeps_a_transcript() {
    let mut app = App::new();
    assert_eq!(app.messages.len(), 1);
    assert!(matches!(app.messages[0].role, MessageRole::System));
    assert_eq!(
        app.messages[0].content,
        "Welcome to Ada. Type /help for commands, or chat with GPT-4."
    );
    assert!(!app.should_quit);
    assert!(!app.is_processing);
    app.add_message(MessageRole::User, "hi".to_string());
    assert_eq!(app.messages.len(), 2);
    assert_eq!(app.messages[1].content, "hi");
}

#[test]
fn app_submit_takes_the_input_line() {
    let mut app = App::new();
    assert_eq!(app.submit_input(), None);
    app.input = "run tests".to_string();
    assert_eq!(app.submit_input(), Some("run tests".to_string()));
    assert_eq!(app.input, "");
}

#[test]
fn app_transcript_marks_roles() {
    let mut app = App::new();
    app.messages.clear();
    app.add_message(MessageRole::User, "hi".to_string());
    app.add_message(MessageRole::Assistant, "hello".to_string());
    app.is_processing = true;
    assert_eq!(
        app.transcript(),
        "> hi\n\n\u{23fa} hello\n\n\u{2722} Working\u{2026} (esc to interrupt)\n"
    );
}

#[test]
fn direct_commands_run_only_for_plain_command_lines() {
    let available = vec!["ls".to_string(), "git".to_string()];
    let d = routing::direct_command_choice("  ls -la ", &available).unwrap();
    assert_eq!(d.command, "ls -la");
    assert_eq!(d.name, "ls");
    // a question opener is never run
    assert!(routing::direct_command_choice("what is ls", &available).is_none());
    // a natural-language second word is never run
    assert!(routing::direct_command_choice("ls all files", &available).is_none());
    // an unknown command is never run
    assert!(routing::direct_command_choice("cargo build", &available).is_none());
    // the first word is matched case-insensitively
    let upper = routing::direct_command_choice("GIT status", &available).unwrap();
    assert_eq!(upper.command, "GIT status");
    assert_eq!(upper.name, "git");
    assert!(routing::direct_command_choice("   ", &available).is_none());
}

#[test]
fn routing_labels_and_responses() {
    assert_eq!(routing::agent_label("code_search"), "Code Search");
    assert_eq!(routing::agent_label("file_ops"), "File Operations");
    assert_eq!(routing::agent_label("git"), "Git Operations");
    assert_eq!(routing::agent_label("execution"), "Shell Execution");
    assert_eq!(routing::agent_label("web"), "Web Fetching");
    assert_eq!(routing::agent_label("anything else"), "General Assistant");
    assert_eq!(routing::normalize_intent("  Git \n"), "git");
    assert_eq!(
        routing::routed_response(true, "git", "Git Operations", "done"),
        "Intent: git \u{2192} [Git Operations]\n\ndone"
    );
    assert_eq!(
        routing::routed_response(false, "git", "Git Operations", "done"),
        "[Git Operations]\n\ndone"
    );
    assert_eq!(
        routing::direct_command_report("ls", "files"),
        "Direct Command: ls\n\nfiles"
    );
    assert_eq!(routing::direct_command_failure("no such file"), "Command failed: no such file");
}

#[test]
fn help_text_names_the_configuration() {
    let c = Config::default();
    let help = routing::help_text(&c, &Some("/home/u/.ada/config".to_string()), 12);
    assert!(help.starts_with("Ada - AI Assistant with Intent Routing\n\n"));
    assert!(help.contains("Config: /home/u/.ada/config\n"));
    assert!(help.contains("Model: gpt-4 | Multi-turn depth: 10 | Direct commands: enabled\n\n"));
    assert!(help.contains("Direct Commands: 12 commands available from PATH\n"));
    assert!(help.ends_with("  - \"what is Rust?\"\n"));
    let mut quiet = Config::default();
    quiet.enable_direct_commands = false;
    let help2 = routing::help_text(&quiet, &None, 0);
    assert!(help2.contains("Direct commands: disabled"));
    assert!(!help2.contains("commands available from PATH"));
    assert!(!help2.contains("Config: "));
}
