//! The tools' pure logic: diff computation and report formatting, plus the
//! compute halves of the individual tools. The surrounding binary owns all
//! file, process and network access.

pub mod edit;
pub mod execute;
pub mod file_ops;
pub mod formatter;
pub mod git;
pub mod glob;
pub mod grep;
pub mod list_directory;
pub mod read_file;
pub mod search_directory;
pub mod tree;
pub mod webfetch;
pub mod write_files;

pub use edit::Edit;
pub use execute::Execute;
pub use file_ops::FileOps;
pub use git::Git;
pub use glob::Glob;
pub use grep::Grep;
pub use list_directory::ListDirectory;
pub use read_file::ReadFile;
pub use search_directory::SearchDirectory;
pub use tree::Tree;
pub use webfetch::WebFetch;
pub use write_files::WriteFiles;

use vstd::prelude::*;

verus! {

/// Common error type for all tools: a plain message for the user.
#[derive(Debug, Clone)]
pub struct ToolError(pub String);

impl ToolError {
    /// The error's message text.
    pub fn message(&self) -> (r: &str)
        ensures
            r@ == self.0@,
    {
        self.0.as_str()
    }
}

} // verus!
