//! Editing a file by exact string replacement: the replacement itself is
//! verified here; reading and writing the file happen in the surrounding
//! binary.

use vstd::prelude::*;
use vstd::string::*;

use super::ToolError;
use crate::strutil::{contains_seq, replaced_all, replaced_first, str_contains, str_replace_all,
    str_replace_first};

verus! {

pub struct EditArgs {
    pub file_path: String,
    pub old_string: String,
    pub new_string: String,
    pub replace_all: Option<bool>,
}

pub struct Edit;

impl Edit {
    /// Applies a find-and-replace edit to a file's content. Text that
    /// does not occur is an error naming it; otherwise the first
    /// occurrence, or every occurrence, gives way to the new text.
    pub fn apply(old_content: &str, old_string: &str, new_string: &str, replace_all: bool) -> (r:
        Result<String, ToolError>)
        ensures
            !contains_seq(old_content@, old_string@) ==> (r matches Err(e) && e.0@
                == "String not found in file: '"@ + old_string@ + "'"@),
            contains_seq(old_content@, old_string@) && replace_all ==> (r matches Ok(s) && s@
                == replaced_all(old_content@, old_string@, new_string@)),
            contains_seq(old_content@, old_string@) && !replace_all ==> (r matches Ok(s) && s@
                == replaced_first(old_content@, old_string@, new_string@)),
    {
        if !str_contains(old_content, old_string) {
            let mut msg = String::new();
            msg.append("String not found in file: '");
            msg.append(old_string);
            msg.append("'");
            return Err(ToolError(msg));
        }
        if replace_all {
            Ok(str_replace_all(old_content, old_string, new_string))
        } else {
            Ok(str_replace_first(old_content, old_string, new_string))
        }
    }
}

} // verus!
