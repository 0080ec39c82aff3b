//! Shell command execution: the report assembly is verified here; the
//! process is spawned by the surrounding binary, which hands back the
//! captured streams and the exit status as plain values.

use vstd::prelude::*;
use vstd::string::*;

verus! {

pub struct ExecuteArgs {
    pub command: String,
    pub working_dir: Option<String>,
}

pub struct Execute;

/// A command's report: the output stream, then the error stream under a
/// marker, then the exit code when the command failed; a fixed note when
/// all of that is empty.
pub open spec fn exec_report(
    stdout: Seq<char>,
    stderr: Seq<char>,
    success: bool,
    status: Seq<char>,
) -> Seq<char> {
    let with_err = if stderr.len() > 0 {
        (if stdout.len() > 0 {
            stdout + "\n"@
        } else {
            stdout
        }) + "STDERR:\n"@ + stderr
    } else {
        stdout
    };
    let with_code = if !success {
        with_err + "\nExit code: "@ + status
    } else {
        with_err
    };
    if with_code.len() == 0 {
        "Command executed successfully (no output)"@
    } else {
        with_code
    }
}

impl Execute {
    /// Assembles the report of a finished command from its captured
    /// streams, its success flag and its rendered exit status.
    pub fn render_output(stdout: &str, stderr: &str, success: bool, status: &str) -> (r: String)
        ensures
            r@ == exec_report(stdout@, stderr@, success, status@),
    {
        let mut result = String::new();
        if !stdout.is_empty() {
            result.append(stdout);
        }
        if !stderr.is_empty() {
            if !result.as_str().is_empty() {
                result.append("\n");
            }
            result.append("STDERR:\n");
            result.append(stderr);
        }
        if !success {
            result.append("\nExit code: ");
            result.append(status);
        }
        if result.as_str().is_empty() {
            result = "Command executed successfully (no output)".to_owned();
        }
        proof {
            assert(result@ =~= exec_report(stdout@, stderr@, success, status@));
        }
        result
    }
}

} // verus!
