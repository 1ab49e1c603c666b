//! Deciding how a `.gitignore` file takes one more entry.
use vstd::prelude::*;

verus! {

use vstd::string::StringExecFns;

/// How the ignore file was (or is to be) changed.
#[derive(PartialEq, Eq, Structural, Debug, Clone, Copy)]
pub enum GitIgnoreResult {
    FileCreated,
    FileUpdated,
}

/// Adds files to an existing or new `.gitignore`.
pub struct GitIgnoreHandler {}

impl GitIgnoreHandler {
    pub fn new() -> (r: GitIgnoreHandler) {
        GitIgnoreHandler {  }
    }

    /// Decides the text that brings `file_name` into the user directory's
    /// `.gitignore`: the whole content of a fresh file when none exists, or
    /// the text to append — led by a newline, so the entry never lands on a
    /// non-empty last line — when one does.
    pub fn add_to_git_ignore(&self, git_ignore_exists: bool, file_name: &str) -> (r: (
        GitIgnoreResult,
        String,
    ))
        ensures
            !git_ignore_exists ==> r.0 == GitIgnoreResult::FileCreated && r.1@ == file_name@
                + "\n"@,
            git_ignore_exists ==> r.0 == GitIgnoreResult::FileUpdated && r.1@ == "\n"@ + file_name@
                + "\n"@,
    {
        let mut text = String::new();
        if git_ignore_exists {
            text.append("\n");
        }
        text.append(file_name);
        text.append("\n");
        if git_ignore_exists {
            (GitIgnoreResult::FileUpdated, text)
        } else {
            (GitIgnoreResult::FileCreated, text)
        }
    }
}

} // verus!
