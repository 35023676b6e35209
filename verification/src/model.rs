//! Typed data model: file entries, repository snapshot, UI modes, keys and
//! the actions the state machine asks its caller to perform.

use vstd::prelude::*;

verus! {

/// Semantic classification of one changed path, derived from the
/// two-character porcelain status code.
#[derive(Debug, Clone, Copy, PartialEq, Eq, Structural)]
pub enum FileStatus {
    Untracked,
    Modified,
    Staged,
    Added,
    Deleted,
    Renamed,
}

/// One changed path known to the repository.
#[derive(Debug)]
pub struct GitFile {
    pub path: String,
    pub status: FileStatus,
    pub staged: bool,
}

/// Ghost image of a `GitFile`: the path as a character sequence.
pub struct FileEntry {
    pub path: Seq<char>,
    pub status: FileStatus,
    pub staged: bool,
}

impl GitFile {
    /// The ghost image of this entry.
    pub open spec fn entry(self) -> FileEntry {
        FileEntry { path: self.path@, status: self.status, staged: self.staged }
    }

    /// A fresh entry equal to this one.
    pub fn duplicate(&self) -> (r: GitFile)
        ensures
            r == *self,
    {
        GitFile { path: self.path.clone(), status: self.status, staged: self.staged }
    }
}

/// The ghost images of a sequence of file entries.
pub open spec fn files_view(files: Seq<GitFile>) -> Seq<FileEntry> {
    files.map_values(|f: GitFile| f.entry())
}

/// Whether some entry of the list has staged changes.
pub open spec fn has_staged_spec(files: Seq<GitFile>) -> bool {
    exists|i: int| 0 <= i < files.len() && files[i].staged
}

/// Which view is presented and which input-handling rules apply.
#[derive(Debug, Clone, Copy, PartialEq, Eq, Structural)]
pub enum AppMode {
    FileList,
    DiffView,
    CommitMessage,
    Help,
}

/// Result of one synchronization against the repository.
#[derive(Debug)]
pub struct GitStatus {
    pub current_branch: String,
    pub ahead: u32,
    pub behind: u32,
    pub files: Vec<GitFile>,
}

/// A transient message shown to the user, stamped with the time it was set.
#[derive(Debug)]
pub struct Notification {
    pub message: String,
    pub created_at_ms: u64,
}

/// How long a notification stays visible, in milliseconds.
pub const NOTIFICATION_MS: u64 = 3000;

/// A key event, already reduced to the cases the dispatcher distinguishes.
#[derive(Debug, Clone, Copy, PartialEq, Eq, Structural)]
pub enum Key {
    Char(char),
    F(u8),
    Up,
    Down,
    Left,
    Right,
    Home,
    End,
    Backspace,
    Delete,
    Enter,
    Esc,
    Tab,
    Other,
}

/// What the caller is asked to run against the repository after a key was
/// handled. The state machine never spawns anything itself.
#[derive(Debug)]
pub enum Action {
    /// No repository work.
    Nothing,
    /// Re-run the status queries and hand the snapshot back.
    Refresh,
    /// Stage the path, then refresh.
    Stage { path: String },
    /// Unstage the path, then refresh.
    Unstage { path: String },
    /// Fetch the diff for the path; `staged` selects the index diff.
    Diff { path: String, staged: bool },
    /// Commit with the message, then report the outcome and refresh.
    Commit { message: Vec<char> },
    /// Push the branch, then report the outcome and refresh.
    Push { branch: String },
}

} // verus!
