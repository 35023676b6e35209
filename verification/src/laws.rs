//! Laws that relate several operations of the state machine, stated and
//! proved once over the transition predicates and parsing specifications.

use vstd::prelude::*;
use vstd::arithmetic::div_mod::{lemma_small_mod, lemma_mod_self_0, lemma_add_mod_noop};
use crate::model::{Action, FileStatus, Key, Notification, has_staged_spec};
use crate::parse::{entry_of_line, entries_of_lines, split_lines, porcelain_spec, is_blank};
use crate::state::{
    App, compose_post, cycle_spec, file_list_post, nav_down_spec, nav_up_spec,
    notification_expired,
};

verus! {

/// In a well-formed state the selection is either cleared, on an empty
/// file list, or a valid index into the list; there is no third case.
pub proof fn lemma_selection_valid(s: App)
    requires
        s.wf(),
    ensures
        s.files@.len() == 0 ==> s.selection() is None,
        s.files@.len() > 0 ==> (s.selection() matches Some(i) && 0 <= i < s.files@.len()),
{
}

/// Navigation wraps: down from the last index lands on 0, up from 0 lands
/// on the last index, and on a single-element list both leave the index
/// alone.
pub proof fn lemma_navigation_wraps(sel: int, len: int)
    requires
        0 <= sel < len,
    ensures
        sel == len - 1 ==> nav_down_spec(sel, len) == 0,
        sel == 0 ==> nav_up_spec(sel, len) == len - 1,
        len == 1 ==> nav_down_spec(sel, len) == sel && nav_up_spec(sel, len) == sel,
{
    if sel == len - 1 {
        lemma_mod_self_0(len);
    } else {
        lemma_small_mod((sel + 1) as nat, len as nat);
    }
}

/// Single-character edits round-trip: typing a character into the draft
/// and then pressing backspace restores the draft and the cursor exactly.
pub proof fn lemma_edit_roundtrip(
    pre: App,
    mid: App,
    post: App,
    c: char,
    t1: u64,
    t2: u64,
    a1: Action,
    a2: Action,
)
    requires
        pre.wf(),
        pre.commit_message@.len() < usize::MAX,
        compose_post(pre, mid, Key::Char(c), t1, a1),
        compose_post(mid, post, Key::Backspace, t2, a2),
    ensures
        post.commit_message@ == pre.commit_message@,
        post.cursor_position == pre.cursor_position,
{
    let cu = pre.cursor_position as int;
    assert(mid.commit_message@ == pre.commit_message@.insert(cu, c));
    assert(post.commit_message@ == mid.commit_message@.remove(cu));
    assert(pre.commit_message@.insert(cu, c).remove(cu) =~= pre.commit_message@);
}

/// Submitting a blank draft never asks for a commit: the mode stays in
/// compose, the draft is untouched, and the only effect is the refusal
/// notification.
pub proof fn lemma_blank_submit_rejected(pre: App, post: App, now_ms: u64, a: Action)
    requires
        pre.wf(),
        is_blank(pre.commit_message@),
        compose_post(pre, post, Key::Enter, now_ms, a),
    ensures
        !(a is Commit),
        post.mode == pre.mode,
        post.commit_message@ == pre.commit_message@,
        (post.notification matches Some(n) && n.message@ == "Commit message cannot be empty"@),
{
    assert((App { notification: pre.notification, ..post }) == pre);
    assert(post.mode == pre.mode);
}

/// Compose mode opens only over staged work: with no staged file the mode
/// never changes and the refusal notification is always shown.
pub proof fn lemma_commit_gate(pre: App, post: App, now_ms: u64, a: Action)
    requires
        pre.wf(),
        !has_staged_spec(pre.files@),
        file_list_post(pre, post, Key::Char('c'), now_ms, a),
    ensures
        a is Nothing,
        post.mode == pre.mode,
        (post.notification matches Some(n) && n.message@ == "No staged files to commit"@),
{
    assert((App { notification: pre.notification, ..post }) == pre);
    assert(post.mode == pre.mode);
}

/// The prefix selection after `k` circular steps through a catalog of
/// `len` entries.
pub open spec fn cycle_iter(sel: int, len: int, k: nat) -> int
    decreases k,
{
    if k == 0 {
        sel
    } else {
        cycle_spec(cycle_iter(sel, len, (k - 1) as nat), len)
    }
}

/// Each circular step advances the selection by one, modulo the catalog
/// size.
proof fn lemma_cycle_iter_mod(sel: int, len: int, k: nat)
    requires
        0 <= sel < len,
    ensures
        cycle_iter(sel, len, k) == (sel + k) % len,
    decreases k,
{
    if k == 0 {
        lemma_small_mod(sel as nat, len as nat);
    } else {
        lemma_cycle_iter_mod(sel, len, (k - 1) as nat);
        let prev = (sel + k - 1) % len;
        lemma_add_mod_noop(sel + k - 1, 1, len);
        if len == 1 {
            assert(cycle_spec(prev, len) == (prev + 1) % len);
            lemma_mod_self_0(1);
        } else {
            lemma_small_mod(1nat, len as nat);
        }
    }
}

/// Cycling through the whole catalog returns to the starting prefix.
pub proof fn lemma_cycle_roundtrip(sel: int, len: int)
    requires
        0 <= sel < len,
    ensures
        cycle_iter(sel, len, len as nat) == sel,
{
    lemma_cycle_iter_mod(sel, len, len as nat);
    lemma_add_mod_noop(sel, len, len);
    lemma_mod_self_0(len);
    lemma_small_mod(sel as nat, len as nat);
}

/// Cycling is possible only on an empty draft: the tab key over a
/// non-empty draft changes nothing.
pub proof fn lemma_cycle_needs_empty_draft(pre: App, post: App, now_ms: u64, a: Action)
    requires
        pre.wf(),
        pre.commit_message@.len() > 0,
        compose_post(pre, post, Key::Tab, now_ms, a),
    ensures
        post == pre,
        a is Nothing,
{
}

/// The notification boundary: just inside the display duration the
/// notification is still shown, just past it it is gone.
pub proof fn lemma_notification_boundary(n: Notification)
    requires
        n.created_at_ms + 3100 <= u64::MAX,
    ensures
        !notification_expired(n, (n.created_at_ms + 2900) as u64),
        notification_expired(n, (n.created_at_ms + 3100) as u64),
{
}

/// One parsed line never marks an untracked path as staged.
proof fn lemma_entry_untracked_unstaged(line: Seq<char>)
    ensures
        (entry_of_line(line) matches Some(e) ==> (e.status == FileStatus::Untracked
            ==> !e.staged)),
{
}

/// No parsed file list marks an untracked path as staged: the file-entry
/// invariant holds of every porcelain block.
pub proof fn lemma_porcelain_untracked_unstaged(s: Seq<char>)
    ensures
        forall|i: int|
            0 <= i < porcelain_spec(s).len() && porcelain_spec(s)[i].status
                == FileStatus::Untracked ==> !porcelain_spec(s)[i].staged,
{
    lemma_entries_untracked_unstaged(split_lines(s));
}

/// The entries of any line list obey the untracked-implies-unstaged
/// invariant.
proof fn lemma_entries_untracked_unstaged(lines: Seq<Seq<char>>)
    ensures
        forall|i: int|
            0 <= i < entries_of_lines(lines).len() && entries_of_lines(lines)[i].status
                == FileStatus::Untracked ==> !entries_of_lines(lines)[i].staged,
    decreases lines.len(),
{
    if lines.len() > 0 {
        lemma_entry_untracked_unstaged(lines[0]);
        lemma_entries_untracked_unstaged(lines.drop_first());
    }
}

} // verus!
