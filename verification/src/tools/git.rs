//! Git operations: the report and error assembly is verified here; the
//! `git` process itself runs in the surrounding binary.

use vstd::prelude::*;
use vstd::string::*;

use super::ToolError;

verus! {

pub struct GitArgs {
    pub operation: String,
    pub args: Option<Vec<String>>,
}

pub struct Git;

/// A successful git command's report: both streams in order, or a fixed
/// note when they are empty.
pub open spec fn git_report(stdout: Seq<char>, stderr: Seq<char>) -> Seq<char> {
    let both = if stderr.len() > 0 {
        (if stdout.len() > 0 {
            stdout + "\n"@
        } else {
            stdout
        }) + stderr
    } else {
        stdout
    };
    if both.len() == 0 {
        "Command completed successfully"@
    } else {
        both
    }
}

impl Git {
    /// Assembles a finished git command's report: a failed command turns
    /// into an error carrying both streams, a successful one into its
    /// combined output.
    pub fn render_output(stdout: &str, stderr: &str, success: bool) -> (r: Result<
        String,
        ToolError,
    >)
        ensures
            success ==> (r matches Ok(s) && s@ == git_report(stdout@, stderr@)),
            !success ==> (r matches Err(e) && e.0@ == "Git command failed:\n"@ + stdout@
                + stderr@),
    {
        if !success {
            let mut msg = String::new();
            msg.append("Git command failed:\n");
            msg.append(stdout);
            msg.append(stderr);
            return Err(ToolError(msg));
        }
        let mut result = String::new();
        if !stdout.is_empty() {
            result.append(stdout);
        }
        if !stderr.is_empty() {
            if !result.as_str().is_empty() {
                result.append("\n");
            }
            result.append(stderr);
        }
        if result.as_str().is_empty() {
            result = "Command completed successfully".to_owned();
        }
        proof {
            assert(result@ =~= git_report(stdout@, stderr@));
        }
        Ok(result)
    }
}

} // verus!
