//! The script runtime's model: script configuration and the git actions it
//! can be asked for.

use vstd::prelude::*;

verus! {

/// Where a script keeps its session and files.
#[derive(Clone, Debug, PartialEq, Eq)]
pub struct ScriptConfig {
    pub session_key_template: String,
    pub bot_id: String,
    pub virtual_fs: String,
}

/// Which configuration level a setting applies to.
#[derive(Clone, Copy, Debug, PartialEq, Eq, Structural)]
pub enum Scope {
    All,
    System,
    Global,
    Local,
}

/// What a diff compares.
#[derive(Clone, Copy, Debug, PartialEq, Eq, Structural)]
pub enum GitDiffType {
    WorkingTree,
    Staged,
    Branch,
    Folder,
}

/// A change to history.
#[derive(Clone, Debug, PartialEq, Eq)]
pub enum HistoryAction {
    UndoCommit,
    Clean,
    CreatePatch,
    Squash,
    Rebase { target: String },
}

/// A submodule operation.
#[derive(Clone, Debug, PartialEq, Eq)]
pub enum SubmoduleAction {
    Init,
    Sync,
    Add { repo_url: String, path: String, branch: Option<String>, depth: Option<i32> },
    SetBranch { path: String, branch: String },
    Move { old_path: String, new_path: String },
    Remove { path: String },
    Deinit { path: String },
}

/// A Perforce bridge operation.
#[derive(Clone, Debug, PartialEq, Eq)]
pub enum P4Action {
    Clone { depot_path: String },
    Submit,
}

/// How a repository is cloned.
#[derive(Clone, Copy, Debug, PartialEq, Eq, Structural)]
pub struct CloneOptions {
    pub autocrlf: bool,
    pub depth: Option<u32>,
    pub single_branch: bool,
}

impl Default for CloneOptions {
    /// A full clone of every branch, line endings as stored.
    fn default() -> (r: CloneOptions)
        ensures
            !r.autocrlf,
            r.depth is None,
            !r.single_branch,
    {
        CloneOptions { autocrlf: false, depth: None, single_branch: false }
    }
}

/// The configuration of the git script bot.
pub fn git_script_config() -> (r: ScriptConfig)
    ensures
        r.session_key_template@ == "git_session:{user_id}"@,
        r.bot_id@ == "git_bot"@,
        r.virtual_fs@ == "/alien-vfs/git-commands/invocations-001/"@,
{
    ScriptConfig {
        session_key_template: "git_session:{user_id}".to_owned(),
        bot_id: "git_bot".to_owned(),
        virtual_fs: "/alien-vfs/git-commands/invocations-001/".to_owned(),
    }
}

} // verus!
