//! Routing decisions of the assistant's command loop: which specialist an
//! intent selects, whether an input line should run directly as a shell
//! command, and the wording of the answers. The language-model calls and
//! the process execution live in the surrounding binary.

use vstd::prelude::*;
use vstd::string::*;

use crate::config::Config;
use crate::strutil::{dec_digits, str_eq, strs_view, usize_string};

verus! {

/// The lower-case form of a text, as `str::to_lowercase` computes it; a
/// function of the characters alone.
pub uninterp spec fn lower_of(s: Seq<char>) -> Seq<char>;

/// The text with leading and trailing whitespace removed, as `str::trim`
/// computes it; a function of the characters alone.
pub uninterp spec fn trimmed_of(s: Seq<char>) -> Seq<char>;

/// The whitespace-separated tokens of a text, as `str::split_whitespace`
/// yields them; a function of the characters alone.
pub uninterp spec fn space_tokens_of(s: Seq<char>) -> Seq<Seq<char>>;

/// Relies on `str::to_lowercase`: the result depends on the characters
/// alone, and an empty text stays empty.
#[verifier::external_body]
fn str_lower(s: &str) -> (r: String)
    ensures
        r@ == lower_of(s@),
        s@.len() == 0 ==> r@.len() == 0,
{
    s.to_lowercase()
}

/// Relies on `str::trim`: the result depends on the characters alone and
/// is never longer than the input.
#[verifier::external_body]
fn str_trim(s: &str) -> (r: String)
    ensures
        r@ == trimmed_of(s@),
        r@.len() <= s@.len(),
{
    s.trim().to_string()
}

/// Relies on `str::split_whitespace`: the tokens depend on the
/// characters alone, and an empty text has none.
#[verifier::external_body]
fn str_space_tokens(s: &str) -> (r: Vec<String>)
    ensures
        strs_view(r@) == space_tokens_of(s@),
        s@.len() == 0 ==> r@.len() == 0,
{
    s.split_whitespace().map(|t| t.to_string()).collect()
}

/// A word that opens a question rather than a command.
pub open spec fn question_word(w: Seq<char>) -> bool {
    w == "what"@ || w == "how"@ || w == "why"@ || w == "when"@ || w == "where"@ || w == "who"@
        || w == "which"@ || w == "can"@ || w == "could"@ || w == "would"@ || w == "should"@ || w
        == "is"@ || w == "are"@ || w == "do"@ || w == "does"@
}

/// A word that marks the rest of the line as natural language rather
/// than command arguments.
pub open spec fn natural_language_word(w: Seq<char>) -> bool {
    w == "all"@ || w == "the"@ || w == "my"@ || w == "this"@ || w == "that"@ || w == "these"@
        || w == "those"@ || w == "every"@ || w == "each"@ || w == "some"@ || w == "any"@ || w
        == "many"@ || w == "few"@ || w == "a"@ || w == "an"@ || w == "me"@ || w == "you"@ || w
        == "it"@ || w == "them"@ || w == "us"@
}

fn is_question_word(w: &str) -> (r: bool)
    ensures
        r == question_word(w@),
{
    str_eq(w, "what") || str_eq(w, "how") || str_eq(w, "why") || str_eq(w, "when") || str_eq(
        w,
        "where",
    ) || str_eq(w, "who") || str_eq(w, "which") || str_eq(w, "can") || str_eq(w, "could")
        || str_eq(w, "would") || str_eq(w, "should") || str_eq(w, "is") || str_eq(w, "are")
        || str_eq(w, "do") || str_eq(w, "does")
}

fn is_natural_language_word(w: &str) -> (r: bool)
    ensures
        r == natural_language_word(w@),
{
    str_eq(w, "all") || str_eq(w, "the") || str_eq(w, "my") || str_eq(w, "this") || str_eq(
        w,
        "that",
    ) || str_eq(w, "these") || str_eq(w, "those") || str_eq(w, "every") || str_eq(w, "each")
        || str_eq(w, "some") || str_eq(w, "any") || str_eq(w, "many") || str_eq(w, "few")
        || str_eq(w, "a") || str_eq(w, "an") || str_eq(w, "me") || str_eq(w, "you") || str_eq(
        w,
        "it",
    ) || str_eq(w, "them") || str_eq(w, "us")
}

fn contains_string(v: &Vec<String>, w: &str) -> (b: bool)
    ensures
        b == strs_view(v@).contains(w@),
{
    let n = v.len();
    let mut i: usize = 0;
    while i < n
        invariant
            n == v@.len(),
            i <= n,
            forall|j: int| 0 <= j < i ==> strs_view(v@)[j] != w@,
        decreases n - i,
    {
        if str_eq(v[i].as_str(), w) {
            proof {
                assert(strs_view(v@)[i as int] == w@);
            }
            return true;
        }
        i = i + 1;
    }
    proof {
        assert(forall|j: int| 0 <= j < strs_view(v@).len() ==> strs_view(v@)[j] != w@);
    }
    false
}

/// A line chosen to run directly: the command to execute and the word it
/// is listed under.
pub struct DirectCommand {
    pub command: String,
    pub name: String,
}

/// The direct-command decision: the trimmed line runs as a command,
/// under its lower-cased first word, exactly when that word is an
/// available command rather than a question opener, and the second word
/// does not read as natural language.
pub open spec fn direct_choice(input: Seq<char>, commands: Seq<Seq<char>>) -> Option<
    (Seq<char>, Seq<char>),
> {
    let trimmed = trimmed_of(input);
    let toks = space_tokens_of(trimmed);
    if toks.len() == 0 {
        None
    } else if question_word(lower_of(toks[0])) {
        None
    } else if !commands.contains(lower_of(toks[0])) {
        None
    } else if toks.len() > 1 && natural_language_word(lower_of(toks[1])) {
        None
    } else {
        Some((trimmed, lower_of(toks[0])))
    }
}

/// Decides whether an input line should run directly as a shell command,
/// against the commands available on this machine.
pub fn direct_command_choice(input: &str, available: &Vec<String>) -> (r: Option<DirectCommand>)
    ensures
        match r {
            Some(d) => direct_choice(input@, strs_view(available@)) == Some((d.command@, d.name@)),
            None => direct_choice(input@, strs_view(available@)) is None,
        },
{
    let trimmed = str_trim(input);
    let toks = str_space_tokens(trimmed.as_str());
    if toks.len() == 0 {
        return None;
    }
    proof {
        assert(space_tokens_of(trimmed_of(input@))[0] == toks@[0]@);
    }
    let first = str_lower(toks[0].as_str());
    if is_question_word(first.as_str()) {
        return None;
    }
    if !contains_string(available, first.as_str()) {
        return None;
    }
    if toks.len() > 1 {
        proof {
            assert(space_tokens_of(trimmed_of(input@))[1] == toks@[1]@);
        }
        let second = str_lower(toks[1].as_str());
        if is_natural_language_word(second.as_str()) {
            return None;
        }
    }
    Some(DirectCommand { command: trimmed, name: first })
}

/// The report of a directly executed command.
pub fn direct_command_report(name: &str, output: &str) -> (r: String)
    ensures
        r@ == "Direct Command: "@ + name@ + "\n\n"@ + output@,
{
    let mut s = String::new();
    s.append("Direct Command: ");
    s.append(name);
    s.append("\n\n");
    s.append(output);
    s
}

/// The report of a direct command that failed.
pub fn direct_command_failure(message: &str) -> (r: String)
    ensures
        r@ == "Command failed: "@ + message@,
{
    let mut s = String::new();
    s.append("Command failed: ");
    s.append(message);
    s
}

/// The display name of the specialist an intent routes to.
pub fn agent_label(intent: &str) -> (r: &'static str)
    ensures
        intent@ == "code_search"@ ==> r@ == "Code Search"@,
        intent@ == "file_ops"@ ==> r@ == "File Operations"@,
        intent@ == "git"@ ==> r@ == "Git Operations"@,
        intent@ == "execution"@ ==> r@ == "Shell Execution"@,
        intent@ == "web"@ ==> r@ == "Web Fetching"@,
        intent@ != "code_search"@ && intent@ != "file_ops"@ && intent@ != "git"@ && intent@
            != "execution"@ && intent@ != "web"@ ==> r@ == "General Assistant"@,
{
    proof {
        broadcast use vstd::string::group_string_axioms;

        reveal_strlit("code_search");
        reveal_strlit("file_ops");
        reveal_strlit("git");
        reveal_strlit("execution");
        reveal_strlit("web");
        assert("code_search"@.len() == 11);
        assert("file_ops"@.len() == 8);
        assert("git"@.len() == 3);
        assert("execution"@.len() == 9);
        assert("web"@.len() == 3);
        assert("git"@[0] == 'g');
        assert("web"@[0] == 'w');
    }
    if str_eq(intent, "code_search") {
        "Code Search"
    } else if str_eq(intent, "file_ops") {
        "File Operations"
    } else if str_eq(intent, "git") {
        "Git Operations"
    } else if str_eq(intent, "execution") {
        "Shell Execution"
    } else if str_eq(intent, "web") {
        "Web Fetching"
    } else {
        "General Assistant"
    }
}

/// The normalized intent a classification answer names: trimmed and
/// lower-cased.
pub fn normalize_intent(answer: &str) -> (r: String)
    ensures
        r@ == lower_of(trimmed_of(answer@)),
{
    let trimmed = str_trim(answer);
    str_lower(trimmed.as_str())
}

/// A routed answer shown to the user: the specialist's name, and the
/// intent too when asked for.
pub fn routed_response(show_intent: bool, intent: &str, agent_name: &str, response: &str) -> (r:
    String)
    ensures
        show_intent ==> r@ == "Intent: "@ + intent@ + " \u{2192} ["@ + agent_name@ + "]\n\n"@
            + response@,
        !show_intent ==> r@ == "["@ + agent_name@ + "]\n\n"@ + response@,
{
    let mut s = String::new();
    if show_intent {
        s.append("Intent: ");
        s.append(intent);
        s.append(" \u{2192} [");
        s.append(agent_name);
        s.append("]\n\n");
        s.append(response);
    } else {
        s.append("[");
        s.append(agent_name);
        s.append("]\n\n");
        s.append(response);
    }
    s
}

/// The help text, from the configuration, the configuration file's path
/// when it is known, and how many commands the machine offers.
pub open spec fn help_text_spec(
    model: Seq<char>,
    depth: int,
    direct: bool,
    path: Option<Seq<char>>,
    command_count: int,
) -> Seq<char> {
    "Ada - AI Assistant with Intent Routing\n\n"@ + (match path {
        Some(p) => "Config: "@ + p + "\n"@,
        None => Seq::<char>::empty(),
    }) + "Model: "@ + model + " | Multi-turn depth: "@ + dec_digits(depth) + " | Direct commands: "@
        + (if direct {
        "enabled"@
    } else {
        "disabled"@
    }) + "\n\n"@ + (if direct {
        "Direct Commands: "@ + dec_digits(command_count)
            + " commands available from PATH\nType any system command (ls, git, cargo, etc.) to execute directly!\n\n"@
    } else {
        Seq::<char>::empty()
    })
        + "I automatically route other requests to specialized agents:\n\nCode Search Agent:\n  - grep - Search file contents with regex\n  - glob - Find files by pattern (*.rs, **/*.toml)\n  - search_directory - Search directories\n  - read_file - Read files\n\nFile Operations Agent:\n  - read_file - Read file contents with line numbers\n  - edit - Replace text in files (shows diffs)\n  - write_files - Write multiple files at once\n  - file_ops - Delete, move, copy files\n  - list_directory - List files and folders\n  - tree - Visual directory structure\n\nGit Operations Agent:\n  - git - Git operations (status, diff, log, commit)\n\nShell Execution Agent:\n  - execute - Run shell commands\n\nWeb Fetching Agent:\n  - webfetch - Fetch content from URLs\n\nGeneral Agent:\n  - Answers general questions and provides assistance\n\nCommands:\n  /help - Show this help message\n\nExamples:\n  - \"find all TODO comments in src\"\n  - \"edit Cargo.toml and add serde dependency\"\n  - \"what's the git status?\"\n  - \"run cargo build\"\n  - \"what is Rust?\"\n"@
}

/// Renders the help text a user sees.
pub fn help_text(config: &Config, config_path: &Option<String>, command_count: usize) -> (r:
    String)
    ensures
        r@ == help_text_spec(
            config.model@,
            config.multi_turn_depth as int,
            config.enable_direct_commands,
            match config_path {
                Some(p) => Some(p@),
                None => None,
            },
            command_count as int,
        ),
{
    let mut s = String::new();
    s.append("Ada - AI Assistant with Intent Routing\n\n");
    if let Some(p) = config_path {
        s.append("Config: ");
        s.append(p.as_str());
        s.append("\n");
    }
    s.append("Model: ");
    s.append(config.model.as_str());
    s.append(" | Multi-turn depth: ");
    let depth = usize_string(config.multi_turn_depth);
    s.append(depth.as_str());
    s.append(" | Direct commands: ");
    if config.enable_direct_commands {
        s.append("enabled");
    } else {
        s.append("disabled");
    }
    s.append("\n\n");
    if config.enable_direct_commands {
        s.append("Direct Commands: ");
        let count = usize_string(command_count);
        s.append(count.as_str());
        s.append(
            " commands available from PATH\nType any system command (ls, git, cargo, etc.) to execute directly!\n\n",
        );
    }
    s.append(
        "I automatically route other requests to specialized agents:\n\nCode Search Agent:\n  - grep - Search file contents with regex\n  - glob - Find files by pattern (*.rs, **/*.toml)\n  - search_directory - Search directories\n  - read_file - Read files\n\nFile Operations Agent:\n  - read_file - Read file contents with line numbers\n  - edit - Replace text in files (shows diffs)\n  - write_files - Write multiple files at once\n  - file_ops - Delete, move, copy files\n  - list_directory - List files and folders\n  - tree - Visual directory structure\n\nGit Operations Agent:\n  - git - Git operations (status, diff, log, commit)\n\nShell Execution Agent:\n  - execute - Run shell commands\n\nWeb Fetching Agent:\n  - webfetch - Fetch content from URLs\n\nGeneral Agent:\n  - Answers general questions and provides assistance\n\nCommands:\n  /help - Show this help message\n\nExamples:\n  - \"find all TODO comments in src\"\n  - \"edit Cargo.toml and add serde dependency\"\n  - \"what's the git status?\"\n  - \"run cargo build\"\n  - \"what is Rust?\"\n",
    );
    proof {
        assert(s@ =~= help_text_spec(
            config.model@,
            config.multi_turn_depth as int,
            config.enable_direct_commands,
            match config_path {
                Some(p) => Some(p@),
                None => None,
            },
            command_count as int,
        ));
    }
    s
}

} // verus!
