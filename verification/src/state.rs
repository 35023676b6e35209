//! The application state and its transition rules: one mode-aware step per
//! key event, plus the application of repository results handed back by the
//! caller. Every step keeps the state well formed and asks for at most one
//! repository action.

use vstd::prelude::*;
use vstd::string::*;
use crate::model::{
    Action, AppMode, GitFile, GitStatus, Key, Notification, NOTIFICATION_MS, has_staged_spec,
};
use crate::parse::{is_blank, is_ws, is_ws_char, trim_spec, trim_bounds};

verus! {

/// The whole application state. The presentation layer reads it; only the
/// methods below mutate it.
#[derive(Debug)]
pub struct App {
    pub mode: AppMode,
    pub files: Vec<GitFile>,
    pub selected_file: usize,
    pub commit_message: Vec<char>,
    pub commit_prefixes: Vec<String>,
    pub selected_prefix: usize,
    pub git_status: GitStatus,
    pub diff_content: String,
    pub notification: Option<Notification>,
    pub should_quit: bool,
    pub cursor_position: usize,
}

/// The conventional-commit prefix catalog, in cycling order.
pub open spec fn default_prefixes() -> Seq<Seq<char>> {
    seq!["feat: "@, "fix: "@, "docs: "@, "style: "@, "refactor: "@, "test: "@, "chore: "@]
}

/// The views of a prefix catalog.
pub open spec fn prefix_views(prefixes: Seq<String>) -> Seq<Seq<char>> {
    prefixes.map_values(|p: String| p@)
}

/// Index after moving the selection down with wrap-around.
pub open spec fn nav_down_spec(sel: int, len: int) -> int {
    if len <= 0 {
        sel
    } else {
        (sel + 1) % len
    }
}

/// Index after moving the selection up with wrap-around.
pub open spec fn nav_up_spec(sel: int, len: int) -> int {
    if len <= 0 {
        sel
    } else if sel == 0 {
        len - 1
    } else {
        sel - 1
    }
}

/// Index after one circular step through a catalog of `len` entries.
pub open spec fn cycle_spec(sel: int, len: int) -> int {
    if len <= 0 {
        sel
    } else {
        (sel + 1) % len
    }
}

/// The selection clamped into the bounds of a list of `len` entries.
pub open spec fn clamp_spec(sel: int, len: int) -> int {
    if len == 0 {
        0
    } else if sel < len {
        sel
    } else {
        len - 1
    }
}

/// Whether a notification set at `created_at_ms` is no longer shown at
/// `now_ms`: its age strictly exceeds the display duration.
pub open spec fn notification_expired(n: Notification, now_ms: u64) -> bool {
    now_ms as int - n.created_at_ms as int > NOTIFICATION_MS as int
}

/// The state `post` differs from `pre` only in carrying the given fresh
/// notification.
pub open spec fn notified(pre: App, post: App, msg: Seq<char>, now_ms: u64) -> bool {
    &&& (post.notification matches Some(n) && n.message@ == msg && n.created_at_ms == now_ms)
    &&& App { notification: pre.notification, ..post } == pre
}

/// What one key does in the file-list mode.
pub open spec fn file_list_post(pre: App, post: App, key: Key, now_ms: u64, a: Action) -> bool {
    match key {
        Key::Char(c) => {
            if c == 'q' {
                post == App { should_quit: true, ..pre } && a is Nothing
            } else if c == 'h' {
                post == App { mode: AppMode::Help, ..pre } && a is Nothing
            } else if c == 'r' {
                post == pre && a is Refresh
            } else if c == 'j' {
                nav_down_post(pre, post) && a is Nothing
            } else if c == 'k' {
                nav_up_post(pre, post) && a is Nothing
            } else if c == ' ' {
                toggle_stage_post(pre, post, a)
            } else if c == 'd' {
                request_diff_post(pre, post, a)
            } else if c == 'c' {
                request_commit_post(pre, post, now_ms, a)
            } else if c == 'p' {
                post == pre && a == (Action::Push { branch: pre.git_status.current_branch })
            } else {
                post == pre && a is Nothing
            }
        },
        Key::F(n) => {
            if n == 1 {
                post == App { mode: AppMode::Help, ..pre } && a is Nothing
            } else {
                post == pre && a is Nothing
            }
        },
        Key::Down => nav_down_post(pre, post) && a is Nothing,
        Key::Up => nav_up_post(pre, post) && a is Nothing,
        _ => post == pre && a is Nothing,
    }
}

/// The selection moved down by one, wrapping past the end.
pub open spec fn nav_down_post(pre: App, post: App) -> bool {
    post == App {
        selected_file: nav_down_spec(pre.selected_file as int, pre.files@.len() as int) as usize,
        ..pre
    }
}

/// The selection moved up by one, wrapping past the start.
pub open spec fn nav_up_post(pre: App, post: App) -> bool {
    post == App {
        selected_file: nav_up_spec(pre.selected_file as int, pre.files@.len() as int) as usize,
        ..pre
    }
}

/// The stage toggle: ask to unstage a staged selection, to stage an
/// unstaged one, and do nothing on an empty list.
pub open spec fn toggle_stage_post(pre: App, post: App, a: Action) -> bool {
    &&& post == pre
    &&& if pre.files@.len() == 0 {
        a is Nothing
    } else {
        let f = pre.files@[pre.selected_file as int];
        a == if f.staged {
            Action::Unstage { path: f.path }
        } else {
            Action::Stage { path: f.path }
        }
    }
}

/// The diff request: ask for the selected path's diff, against the index
/// iff the entry is staged; nothing on an empty list.
pub open spec fn request_diff_post(pre: App, post: App, a: Action) -> bool {
    &&& post == pre
    &&& if pre.files@.len() == 0 {
        a is Nothing
    } else {
        let f = pre.files@[pre.selected_file as int];
        a == (Action::Diff { path: f.path, staged: f.staged })
    }
}

/// Entering compose mode: allowed exactly when staged files exist, and
/// otherwise refused with a notification and no mode change.
pub open spec fn request_commit_post(pre: App, post: App, now_ms: u64, a: Action) -> bool {
    &&& a is Nothing
    &&& if has_staged_spec(pre.files@) {
        post == App { mode: AppMode::CommitMessage, ..pre }
    } else {
        notified(pre, post, "No staged files to commit"@, now_ms)
    }
}

/// What one key does in the diff view: either alias of back returns to the
/// file list and discards the diff content.
pub open spec fn diff_view_post(pre: App, post: App, key: Key, a: Action) -> bool {
    &&& a is Nothing
    &&& if key == Key::Esc || key == Key::Char('q') {
        post == App { mode: AppMode::FileList, diff_content: post.diff_content, ..pre }
            && post.diff_content@.len() == 0
    } else {
        post == pre
    }
}

/// What one key does in the help view.
pub open spec fn help_post(pre: App, post: App, key: Key, a: Action) -> bool {
    &&& a is Nothing
    &&& if key == Key::Esc || key == Key::Char('q') || key == Key::Char('h') {
        post == App { mode: AppMode::FileList, ..pre }
    } else {
        post == pre
    }
}

/// What one key does in compose mode.
pub open spec fn compose_post(pre: App, post: App, key: Key, now_ms: u64, a: Action) -> bool {
    match key {
        Key::Esc => {
            // cancel: back to the file list, draft discarded
            &&& post == App {
                mode: AppMode::FileList,
                commit_message: post.commit_message,
                cursor_position: 0,
                ..pre
            }
            &&& post.commit_message@.len() == 0
            &&& a is Nothing
        },
        Key::Enter => {
            if is_blank(pre.commit_message@) {
                notified(pre, post, "Commit message cannot be empty"@, now_ms) && a is Nothing
            } else {
                &&& post == App { mode: AppMode::FileList, ..pre }
                &&& (a matches Action::Commit { message } && message@ == pre.commit_message@)
            }
        },
        Key::Char(c) => {
            &&& post == App {
                commit_message: post.commit_message,
                cursor_position: (pre.cursor_position + 1) as usize,
                ..pre
            }
            &&& post.commit_message@ == pre.commit_message@.insert(pre.cursor_position as int, c)
            &&& a is Nothing
        },
        Key::Backspace => {
            &&& a is Nothing
            &&& if pre.cursor_position > 0 {
                post == App {
                    commit_message: post.commit_message,
                    cursor_position: (pre.cursor_position - 1) as usize,
                    ..pre
                } && post.commit_message@ == pre.commit_message@.remove(
                    pre.cursor_position as int - 1,
                )
            } else {
                post == pre
            }
        },
        Key::Delete => {
            &&& a is Nothing
            &&& if pre.cursor_position < pre.commit_message@.len() {
                post == App { commit_message: post.commit_message, ..pre }
                    && post.commit_message@ == pre.commit_message@.remove(
                    pre.cursor_position as int,
                )
            } else {
                post == pre
            }
        },
        Key::Left => {
            &&& a is Nothing
            &&& post == App {
                cursor_position: if pre.cursor_position > 0 {
                    (pre.cursor_position - 1) as usize
                } else {
                    0
                },
                ..pre
            }
        },
        Key::Right => {
            &&& a is Nothing
            &&& post == App {
                cursor_position: if pre.cursor_position < pre.commit_message@.len() {
                    (pre.cursor_position + 1) as usize
                } else {
                    pre.cursor_position
                },
                ..pre
            }
        },
        Key::Home => a is Nothing && post == App { cursor_position: 0, ..pre },
        Key::End => {
            &&& a is Nothing
            &&& post == App { cursor_position: pre.commit_message@.len() as usize, ..pre }
        },
        Key::Tab => {
            &&& a is Nothing
            &&& if pre.commit_message@.len() == 0 {
                let next = cycle_spec(pre.selected_prefix as int, pre.commit_prefixes@.len() as int);
                &&& post == App {
                    commit_message: post.commit_message,
                    selected_prefix: next as usize,
                    cursor_position: post.cursor_position,
                    ..pre
                }
                &&& post.commit_message@ == pre.commit_prefixes@[next]@
                &&& post.cursor_position == post.commit_message@.len()
            } else {
                post == pre
            }
        },
        _ => post == pre && a is Nothing,
    }
}

impl App {
    /// The state is well formed: the selection is in bounds whenever the
    /// list is non-empty and cleared otherwise, the draft cursor stays
    /// inside the draft, and the prefix selection points into the catalog.
    pub open spec fn wf(self) -> bool {
        &&& self.files@.len() == 0 ==> self.selected_file == 0
        &&& self.files@.len() > 0 ==> (self.selected_file as int) < self.files@.len()
        &&& self.cursor_position <= self.commit_message@.len()
        &&& self.commit_prefixes@.len() > 0
        &&& (self.selected_prefix as int) < self.commit_prefixes@.len()
    }

    /// The selected index, or nothing when the list is empty.
    pub open spec fn selection(self) -> Option<int> {
        if self.files@.len() == 0 {
            None
        } else {
            Some(self.selected_file as int)
        }
    }

    /// Whether some listed file has staged changes.
    pub fn has_staged_files(&self) -> (r: bool)
        ensures
            r == has_staged_spec(self.files@),
    {
        let mut i: usize = 0;
        while i < self.files.len()
            invariant
                0 <= i <= self.files@.len(),
                forall|k: int| 0 <= k < i ==> !self.files@[k].staged,
            decreases self.files@.len() - i,
        {
            if self.files[i].staged {
                return true;
            }
            i = i + 1;
        }
        false
    }

    /// Route one key event to the handler of the current mode.
    pub fn handle_input(&mut self, key: Key, now_ms: u64) -> (a: Action)
        requires
            old(self).wf(),
        ensures
            final(self).wf(),
            match old(self).mode {
                AppMode::FileList => file_list_post(*old(self), *final(self), key, now_ms, a),
                AppMode::DiffView => diff_view_post(*old(self), *final(self), key, a),
                AppMode::CommitMessage => compose_post(*old(self), *final(self), key, now_ms, a),
                AppMode::Help => help_post(*old(self), *final(self), key, a),
            },
    {
        match self.mode {
            AppMode::FileList => self.handle_file_list_input(key, now_ms),
            AppMode::DiffView => self.handle_diff_view_input(key),
            AppMode::CommitMessage => self.handle_commit_message_input(key, now_ms),
            AppMode::Help => self.handle_help_input(key),
        }
    }

    /// One key in the file list: navigation, staging, and the requests
    /// that leave the list.
    pub fn handle_file_list_input(&mut self, key: Key, now_ms: u64) -> (a: Action)
        requires
            old(self).wf(),
            old(self).mode == AppMode::FileList,
        ensures
            final(self).wf(),
            file_list_post(*old(self), *final(self), key, now_ms, a),
    {
        match key {
            Key::Char(c) => {
                if c == 'q' {
                    self.should_quit = true;
                    Action::Nothing
                } else if c == 'h' {
                    self.mode = AppMode::Help;
                    Action::Nothing
                } else if c == 'r' {
                    Action::Refresh
                } else if c == 'j' {
                    self.select_next();
                    Action::Nothing
                } else if c == 'k' {
                    self.select_previous();
                    Action::Nothing
                } else if c == ' ' {
                    self.toggle_stage_action()
                } else if c == 'd' {
                    self.request_diff_action()
                } else if c == 'c' {
                    if self.has_staged_files() {
                        self.mode = AppMode::CommitMessage;
                    } else {
                        self.show_notification("No staged files to commit".to_owned(), now_ms);
                    }
                    Action::Nothing
                } else if c == 'p' {
                    Action::Push { branch: self.git_status.current_branch.clone() }
                } else {
                    Action::Nothing
                }
            },
            Key::F(n) => {
                if n == 1 {
                    self.mode = AppMode::Help;
                }
                Action::Nothing
            },
            Key::Down => {
                self.select_next();
                Action::Nothing
            },
            Key::Up => {
                self.select_previous();
                Action::Nothing
            },
            _ => Action::Nothing,
        }
    }

    /// Move the selection down by one, wrapping past the end.
    fn select_next(&mut self)
        requires
            old(self).wf(),
        ensures
            final(self).wf(),
            nav_down_post(*old(self), *final(self)),
    {
        if self.files.len() > 0 {
            self.selected_file = (self.selected_file + 1) % self.files.len();
        }
    }

    /// Move the selection up by one, wrapping past the start.
    fn select_previous(&mut self)
        requires
            old(self).wf(),
        ensures
            final(self).wf(),
            nav_up_post(*old(self), *final(self)),
    {
        if self.files.len() > 0 {
            if self.selected_file == 0 {
                self.selected_file = self.files.len() - 1;
            } else {
                self.selected_file = self.selected_file - 1;
            }
        }
    }

    /// The action that toggles the selected file's staging.
    fn toggle_stage_action(&self) -> (a: Action)
        requires
            self.wf(),
        ensures
            toggle_stage_post(*self, *self, a),
    {
        if self.files.len() == 0 {
            return Action::Nothing;
        }
        let f = &self.files[self.selected_file];
        if f.staged {
            Action::Unstage { path: f.path.clone() }
        } else {
            Action::Stage { path: f.path.clone() }
        }
    }

    /// The action that fetches the selected file's diff.
    fn request_diff_action(&self) -> (a: Action)
        requires
            self.wf(),
        ensures
            request_diff_post(*self, *self, a),
    {
        if self.files.len() == 0 {
            return Action::Nothing;
        }
        let f = &self.files[self.selected_file];
        Action::Diff { path: f.path.clone(), staged: f.staged }
    }

    /// One key in the diff view.
    pub fn handle_diff_view_input(&mut self, key: Key) -> (a: Action)
        requires
            old(self).wf(),
            old(self).mode == AppMode::DiffView,
        ensures
            final(self).wf(),
            diff_view_post(*old(self), *final(self), key, a),
    {
        match key {
            Key::Esc => {
                self.mode = AppMode::FileList;
                self.diff_content = String::new();
            },
            Key::Char(c) => {
                if c == 'q' {
                    self.mode = AppMode::FileList;
                    self.diff_content = String::new();
                }
            },
            _ => {},
        }
        Action::Nothing
    }

    /// One key in the help view.
    pub fn handle_help_input(&mut self, key: Key) -> (a: Action)
        requires
            old(self).wf(),
            old(self).mode == AppMode::Help,
        ensures
            final(self).wf(),
            help_post(*old(self), *final(self), key, a),
    {
        match key {
            Key::Esc => {
                self.mode = AppMode::FileList;
            },
            Key::Char(c) => {
                if c == 'q' || c == 'h' {
                    self.mode = AppMode::FileList;
                }
            },
            _ => {},
        }
        Action::Nothing
    }

    /// One key in compose mode: draft editing, prefix cycling, submit and
    /// cancel.
    pub fn handle_commit_message_input(&mut self, key: Key, now_ms: u64) -> (a: Action)
        requires
            old(self).wf(),
            old(self).mode == AppMode::CommitMessage,
        ensures
            final(self).wf(),
            compose_post(*old(self), *final(self), key, now_ms, a),
    {
        match key {
            Key::Esc => {
                self.mode = AppMode::FileList;
                self.commit_message = Vec::new();
                self.cursor_position = 0;
                Action::Nothing
            },
            Key::Enter => {
                if all_ws(&self.commit_message) {
                    self.show_notification("Commit message cannot be empty".to_owned(), now_ms);
                    Action::Nothing
                } else {
                    self.mode = AppMode::FileList;
                    let message = copy_chars(&self.commit_message);
                    Action::Commit { message }
                }
            },
            Key::Char(c) => {
                self.commit_message.insert(self.cursor_position, c);
                let new_len = self.commit_message.len();
                proof {
                    assert(self.cursor_position < new_len);
                }
                self.cursor_position = self.cursor_position + 1;
                Action::Nothing
            },
            Key::Backspace => {
                if self.cursor_position > 0 {
                    self.commit_message.remove(self.cursor_position - 1);
                    self.cursor_position = self.cursor_position - 1;
                }
                Action::Nothing
            },
            Key::Delete => {
                if self.cursor_position < self.commit_message.len() {
                    self.commit_message.remove(self.cursor_position);
                }
                Action::Nothing
            },
            Key::Left => {
                if self.cursor_position > 0 {
                    self.cursor_position = self.cursor_position - 1;
                }
                Action::Nothing
            },
            Key::Right => {
                if self.cursor_position < self.commit_message.len() {
                    self.cursor_position = self.cursor_position + 1;
                }
                Action::Nothing
            },
            Key::Home => {
                self.cursor_position = 0;
                Action::Nothing
            },
            Key::End => {
                self.cursor_position = self.commit_message.len();
                Action::Nothing
            },
            Key::Tab => {
                if self.commit_message.len() == 0 {
                    let plen = self.commit_prefixes.len();
                    self.selected_prefix = (self.selected_prefix + 1) % plen;
                    self.commit_message = str_chars(self.commit_prefixes[self.selected_prefix].as_str());
                    self.cursor_position = self.commit_message.len();
                }
                Action::Nothing
            },
            _ => Action::Nothing,
        }
    }

    /// Replace the current notification with a fresh one.
    pub fn show_notification(&mut self, message: String, now_ms: u64)
        ensures
            *final(self) == (App {
                notification: Some(Notification { message, created_at_ms: now_ms }),
                ..*old(self)
            }),
    {
        self.notification = Some(Notification { message, created_at_ms: now_ms });
    }

    /// Clear the notification once its age exceeds the display duration.
    pub fn tick_notification(&mut self, now_ms: u64)
        ensures
            *final(self) == (match old(self).notification {
                Some(n) => {
                    if notification_expired(n, now_ms) {
                        (App { notification: None, ..*old(self) })
                    } else {
                        *old(self)
                    }
                },
                None => *old(self),
            }),
    {
        let expired = match &self.notification {
            Some(n) => now_ms > n.created_at_ms && now_ms - n.created_at_ms > NOTIFICATION_MS,
            None => false,
        };
        if expired {
            self.notification = None;
        }
    }

    /// Take one fresh snapshot as the new truth: the file list is replaced
    /// and the selection is clamped into its bounds.
    pub fn apply_refresh(&mut self, status: GitStatus)
        requires
            old(self).wf(),
        ensures
            final(self).wf(),
            final(self).git_status == status,
            final(self).files@ == status.files@,
            final(self).selected_file as int == clamp_spec(
                old(self).selected_file as int,
                status.files@.len() as int,
            ),
            (App {
                files: old(self).files,
                selected_file: old(self).selected_file,
                git_status: old(self).git_status,
                ..*final(self)
            }) == *old(self),
    {
        self.files = clone_files(&status.files);
        self.git_status = status;
        if self.files.len() == 0 {
            self.selected_file = 0;
        } else if self.selected_file >= self.files.len() {
            self.selected_file = self.files.len() - 1;
        }
    }

    /// Show the fetched diff: store its content and enter the diff view.
    pub fn apply_diff(&mut self, content: String)
        requires
            old(self).wf(),
        ensures
            final(self).wf(),
            *final(self) == (App { mode: AppMode::DiffView, diff_content: content, ..*old(self) }),
    {
        self.diff_content = content;
        self.mode = AppMode::DiffView;
    }

    /// Record a commit attempt's outcome: on success the draft is cleared
    /// and a success notification shown; on failure the draft is kept and
    /// the tool's trimmed error text is surfaced.
    pub fn apply_commit_result(&mut self, success: bool, stderr: &str, now_ms: u64)
        requires
            old(self).wf(),
        ensures
            final(self).wf(),
            success ==> final(self).commit_message@.len() == 0,
            success ==> final(self).cursor_position == 0,
            success ==> (final(self).notification matches Some(n) && n.message@
                == "Commit successful"@ && n.created_at_ms == now_ms),
            success ==> (App {
                commit_message: old(self).commit_message,
                cursor_position: old(self).cursor_position,
                notification: old(self).notification,
                ..*final(self)
            }) == *old(self),
            !success ==> notified(
                *old(self),
                *final(self),
                "Commit failed: "@ + trim_spec(stderr@),
                now_ms,
            ),
    {
        if success {
            self.commit_message = Vec::new();
            self.cursor_position = 0;
            self.show_notification("Commit successful".to_owned(), now_ms);
        } else {
            let msg = concat_trimmed("Commit failed: ", stderr);
            self.show_notification(msg, now_ms);
        }
    }

    /// Record a push attempt's outcome, surfacing the tool's trimmed error
    /// text on failure.
    pub fn apply_push_result(&mut self, success: bool, stderr: &str, now_ms: u64)
        requires
            old(self).wf(),
        ensures
            final(self).wf(),
            success ==> notified(*old(self), *final(self), "Push successful"@, now_ms),
            !success ==> notified(
                *old(self),
                *final(self),
                "Push failed: "@ + trim_spec(stderr@),
                now_ms,
            ),
    {
        if success {
            self.show_notification("Push successful".to_owned(), now_ms);
        } else {
            let msg = concat_trimmed("Push failed: ", stderr);
            self.show_notification(msg, now_ms);
        }
    }
}

impl Default for App {
    /// The initial state: file-list mode over an empty snapshot, an empty
    /// draft, the full prefix catalog, and no notification.
    fn default() -> (app: App)
        ensures
            app.wf(),
            app.mode == AppMode::FileList,
            app.files@.len() == 0,
            app.selected_file == 0,
            app.commit_message@.len() == 0,
            prefix_views(app.commit_prefixes@) == default_prefixes(),
            app.selected_prefix == 0,
            app.git_status.current_branch@ == Seq::<char>::empty(),
            app.git_status.ahead == 0,
            app.git_status.behind == 0,
            app.git_status.files@.len() == 0,
            app.diff_content@.len() == 0,
            app.notification is None,
            !app.should_quit,
            app.cursor_position == 0,
    {
        let commit_prefixes: Vec<String> = vec![
            "feat: ".to_owned(),
            "fix: ".to_owned(),
            "docs: ".to_owned(),
            "style: ".to_owned(),
            "refactor: ".to_owned(),
            "test: ".to_owned(),
            "chore: ".to_owned(),
        ];
        proof {
            assert(prefix_views(commit_prefixes@) =~= default_prefixes());
        }
        App {
            mode: AppMode::FileList,
            files: Vec::new(),
            selected_file: 0,
            commit_message: Vec::new(),
            commit_prefixes,
            selected_prefix: 0,
            git_status: GitStatus {
                current_branch: String::new(),
                ahead: 0,
                behind: 0,
                files: Vec::new(),
            },
            diff_content: String::new(),
            notification: None,
            should_quit: false,
            cursor_position: 0,
        }
    }
}

/// Whether the draft is empty or holds only whitespace.
fn all_ws(v: &Vec<char>) -> (r: bool)
    ensures
        r == is_blank(v@),
{
    let mut i: usize = 0;
    while i < v.len()
        invariant
            0 <= i <= v@.len(),
            forall|k: int| 0 <= k < i ==> is_ws(v@[k]),
        decreases v@.len() - i,
    {
        if !is_ws_char(v[i]) {
            return false;
        }
        i = i + 1;
    }
    true
}

/// A fresh copy of a character buffer.
fn copy_chars(v: &Vec<char>) -> (r: Vec<char>)
    ensures
        r@ == v@,
{
    let mut r: Vec<char> = Vec::new();
    let mut i: usize = 0;
    while i < v.len()
        invariant
            0 <= i <= v@.len(),
            r@ == v@.subrange(0, i as int),
        decreases v@.len() - i,
    {
        r.push(v[i]);
        proof {
            assert(r@ =~= v@.subrange(0, i + 1));
        }
        i = i + 1;
    }
    proof {
        assert(v@.subrange(0, v@.len() as int) =~= v@);
    }
    r
}

/// The characters of a string, in order.
fn str_chars(s: &str) -> (r: Vec<char>)
    ensures
        r@ == s@,
{
    let n = s.unicode_len();
    let mut r: Vec<char> = Vec::new();
    let mut i: usize = 0;
    while i < n
        invariant
            0 <= i <= n,
            n == s@.len(),
            r@ == s@.subrange(0, i as int),
        decreases n - i,
    {
        r.push(s.get_char(i));
        proof {
            assert(r@ =~= s@.subrange(0, i + 1));
        }
        i = i + 1;
    }
    proof {
        assert(s@.subrange(0, s@.len() as int) =~= s@);
    }
    r
}

/// A fresh copy of a file list, entry by entry.
fn clone_files(v: &Vec<GitFile>) -> (r: Vec<GitFile>)
    ensures
        r@ == v@,
{
    let mut r: Vec<GitFile> = Vec::new();
    let mut i: usize = 0;
    while i < v.len()
        invariant
            0 <= i <= v@.len(),
            r@ == v@.subrange(0, i as int),
        decreases v@.len() - i,
    {
        r.push(v[i].duplicate());
        proof {
            assert(r@ =~= v@.subrange(0, i + 1));
        }
        i = i + 1;
    }
    proof {
        assert(v@.subrange(0, v@.len() as int) =~= v@);
    }
    r
}

/// The prefix text followed by the trimmed tool output.
fn concat_trimmed(prefix: &str, out: &str) -> (r: String)
    ensures
        r@ == prefix@ + trim_spec(out@),
{
    let (a, b) = trim_bounds(out);
    let trimmed = out.substring_char(a, b);
    let s = prefix.to_owned();
    s.concat(trimmed)
}

} // verus!
