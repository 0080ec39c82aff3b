//! File operations: deciding what a request means and wording its report
//! is verified here; the filesystem work happens in the surrounding
//! binary.

use vstd::prelude::*;
use vstd::string::*;

use super::ToolError;
use crate::strutil::str_eq;

verus! {

pub struct FileOpsArgs {
    pub operation: String,
    pub source: String,
    pub destination: Option<String>,
}

pub struct FileOps;

/// What a file operation request asks for, once validated.
pub enum FileOpsPlan {
    Delete,
    Move { destination: String },
    Copy { destination: String },
}

impl FileOps {
    /// Decides what a request means: a delete needs nothing more, a move
    /// or copy needs a destination, and any other operation name is
    /// rejected with the exact message naming it.
    pub fn plan(operation: &str, destination: Option<String>) -> (r: Result<FileOpsPlan, ToolError>)
        ensures
            operation@ == "delete"@ ==> (r matches Ok(p) && p is Delete),
            operation@ == "move"@ && destination is Some ==> (r matches Ok(p) && p matches
                FileOpsPlan::Move { destination: d } && d == destination->0),
            operation@ == "move"@ && destination is None ==> (r matches Err(e) && e.0@
                == "Destination required for move operation"@),
            operation@ == "copy"@ && destination is Some ==> (r matches Ok(p) && p matches
                FileOpsPlan::Copy { destination: d } && d == destination->0),
            operation@ == "copy"@ && destination is None ==> (r matches Err(e) && e.0@
                == "Destination required for copy operation"@),
            operation@ != "delete"@ && operation@ != "move"@ && operation@ != "copy"@ ==> (
            r matches Err(e) && e.0@ == "Unknown operation: "@ + operation@
                + ". Use 'delete', 'move', or 'copy'"@),
    {
        proof {
            broadcast use vstd::string::group_string_axioms;

            reveal_strlit("delete");
            reveal_strlit("move");
            reveal_strlit("copy");
            assert("delete"@.len() == 6);
            assert("move"@.len() == 4);
            assert("copy"@[0] == 'c');
            assert("move"@[0] == 'm');
        }
        if str_eq(operation, "delete") {
            Ok(FileOpsPlan::Delete)
        } else if str_eq(operation, "move") {
            match destination {
                Some(d) => Ok(FileOpsPlan::Move { destination: d }),
                None => Err(ToolError("Destination required for move operation".to_owned())),
            }
        } else if str_eq(operation, "copy") {
            match destination {
                Some(d) => Ok(FileOpsPlan::Copy { destination: d }),
                None => Err(ToolError("Destination required for copy operation".to_owned())),
            }
        } else {
            let mut msg = String::new();
            msg.append("Unknown operation: ");
            msg.append(operation);
            msg.append(". Use 'delete', 'move', or 'copy'");
            Err(ToolError(msg))
        }
    }

    /// The report line of a finished delete.
    pub fn delete_details(item_type: &str, source: &str) -> (r: String)
        ensures
            r@ == "Deleted "@ + item_type@ + " "@ + source@,
    {
        let mut s = String::new();
        s.append("Deleted ");
        s.append(item_type);
        s.append(" ");
        s.append(source);
        s
    }

    /// The report line of a finished move.
    pub fn move_details(source: &str, destination: &str) -> (r: String)
        ensures
            r@ == "Moved "@ + source@ + " to "@ + destination@,
    {
        let mut s = String::new();
        s.append("Moved ");
        s.append(source);
        s.append(" to ");
        s.append(destination);
        s
    }

    /// The report line of a finished copy.
    pub fn copy_details(source: &str, destination: &str) -> (r: String)
        ensures
            r@ == "Copied "@ + source@ + " to "@ + destination@,
    {
        let mut s = String::new();
        s.append("Copied ");
        s.append(source);
        s.append(" to ");
        s.append(destination);
        s
    }
}

} // verus!
