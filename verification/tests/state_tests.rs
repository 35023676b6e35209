use git_commit_helper::model::{Action, AppMode, FileStatus, GitFile, GitStatus, Key};
use git_commit_helper::state::App;

fn file(path: &str, status: FileStatus, staged: bool) -> GitFile {
    GitFile { path: path.to_string(), status, staged }
}

fn app_with_files(files: Vec<GitFile>) -> App {
    let mut app = App::default();
    app.files = files;
    app
}

fn draft(app: &App) -> String {
    app.commit_message.iter().collect()
}

fn notification_text(app: &App) -> String {
    app.notification.as_ref().expect("a notification").message.clone()
}

#[test]
fn default_state() {
    let app = App::default();
    assert_eq!(app.mode, AppMode::FileList);
    assert_eq!(app.files.len(), 0);
    assert_eq!(app.selected_file, 0);
    assert_eq!(draft(&app), "");
    assert_eq!(app.commit_prefixes.len(), 7);
    assert_eq!(app.commit_prefixes[0], "feat: ");
    assert_eq!(app.selected_prefix, 0);
    assert!(app.notification.is_none());
    assert!(!app.should_quit);
    assert_eq!(app.cursor_position, 0);
}

#[test]
fn quit_sets_flag() {
    let mut app = App::default();
    let a = app.handle_input(Key::Char('q'), 0);
    assert!(app.should_quit);
    assert!(matches!(a, Action::Nothing));
}

#[test]
fn navigation_wraps_down() {
    let mut app = app_with_files(vec![
        file("a", FileStatus::Modified, false),
        file("b", FileStatus::Modified, false),
        file("c", FileStatus::Modified, false),
    ]);
    app.selected_file = 2;
    app.handle_input(Key::Down, 0);
    assert_eq!(app.selected_file, 0);
    app.handle_input(Key::Char('j'), 0);
    assert_eq!(app.selected_file, 1);
}

#[test]
fn navigation_wraps_up() {
    let mut app = app_with_files(vec![
        file("a", FileStatus::Modified, false),
        file("b", FileStatus::Modified, false),
        file("c", FileStatus::Modified, false),
    ]);
    app.handle_input(Key::Up, 0);
    assert_eq!(app.selected_file, 2);
    app.handle_input(Key::Char('k'), 0);
    assert_eq!(app.selected_file, 1);
}

#[test]
fn navigation_single_element_is_noop() {
    let mut app = app_with_files(vec![file("a", FileStatus::Modified, false)]);
    app.handle_input(Key::Down, 0);
    assert_eq!(app.selected_file, 0);
    app.handle_input(Key::Up, 0);
    assert_eq!(app.selected_file, 0);
}

#[test]
fn navigation_empty_list_is_noop() {
    let mut app = App::default();
    app.handle_input(Key::Down, 0);
    assert_eq!(app.selected_file, 0);
    app.handle_input(Key::Up, 0);
    assert_eq!(app.selected_file, 0);
}

#[test]
fn toggle_asks_to_stage_unstaged_file() {
    let mut app = app_with_files(vec![file("a.rs", FileStatus::Modified, false)]);
    let a = app.handle_input(Key::Char(' '), 0);
    match a {
        Action::Stage { path } => assert_eq!(path, "a.rs"),
        _ => panic!("expected a stage action"),
    }
}

#[test]
fn toggle_asks_to_unstage_staged_file() {
    let mut app = app_with_files(vec![file("a.rs", FileStatus::Staged, true)]);
    let a = app.handle_input(Key::Char(' '), 0);
    match a {
        Action::Unstage { path } => assert_eq!(path, "a.rs"),
        _ => panic!("expected an unstage action"),
    }
}

#[test]
fn toggle_on_empty_list_is_noop() {
    let mut app = App::default();
    let a = app.handle_input(Key::Char(' '), 0);
    assert!(matches!(a, Action::Nothing));
}

#[test]
fn diff_request_carries_selection() {
    let mut app = app_with_files(vec![
        file("a.rs", FileStatus::Modified, false),
        file("b.rs", FileStatus::Staged, true),
    ]);
    app.selected_file = 1;
    let a = app.handle_input(Key::Char('d'), 0);
    match a {
        Action::Diff { path, staged } => {
            assert_eq!(path, "b.rs");
            assert!(staged);
        },
        _ => panic!("expected a diff action"),
    }
    assert_eq!(app.mode, AppMode::FileList);
}

#[test]
fn diff_request_on_empty_list_is_noop() {
    let mut app = App::default();
    let a = app.handle_input(Key::Char('d'), 0);
    assert!(matches!(a, Action::Nothing));
}

#[test]
fn commit_gate_refuses_without_staged_files() {
    let mut app = app_with_files(vec![file("a.rs", FileStatus::Modified, false)]);
    let a = app.handle_input(Key::Char('c'), 5);
    assert!(matches!(a, Action::Nothing));
    assert_eq!(app.mode, AppMode::FileList);
    assert_eq!(notification_text(&app), "No staged files to commit");
}

#[test]
fn commit_gate_opens_with_staged_files() {
    let mut app = app_with_files(vec![file("a.rs", FileStatus::Staged, true)]);
    let a = app.handle_input(Key::Char('c'), 5);
    assert!(matches!(a, Action::Nothing));
    assert_eq!(app.mode, AppMode::CommitMessage);
    assert!(app.notification.is_none());
}

#[test]
fn push_carries_current_branch() {
    let mut app = App::default();
    app.git_status.current_branch = "main".to_string();
    let a = app.handle_input(Key::Char('p'), 0);
    match a {
        Action::Push { branch } => assert_eq!(branch, "main"),
        _ => panic!("expected a push action"),
    }
}

#[test]
fn refresh_key_asks_for_refresh() {
    let mut app = App::default();
    let a = app.handle_input(Key::Char('r'), 0);
    assert!(matches!(a, Action::Refresh));
}

#[test]
fn help_opens_and_closes() {
    let mut app = App::default();
    app.handle_input(Key::Char('h'), 0);
    assert_eq!(app.mode, AppMode::Help);
    app.handle_input(Key::Char('q'), 0);
    assert_eq!(app.mode, AppMode::FileList);
    app.handle_input(Key::F(1), 0);
    assert_eq!(app.mode, AppMode::Help);
    app.handle_input(Key::Esc, 0);
    assert_eq!(app.mode, AppMode::FileList);
}

#[test]
fn unrecognized_keys_are_noops() {
    let mut app = App::default();
    let a = app.handle_input(Key::Other, 0);
    assert!(matches!(a, Action::Nothing));
    assert_eq!(app.mode, AppMode::FileList);
    app.mode = AppMode::CommitMessage;
    let a2 = app.handle_input(Key::Other, 0);
    assert!(matches!(a2, Action::Nothing));
    assert_eq!(app.mode, AppMode::CommitMessage);
}

#[test]
fn compose_insert_and_move() {
    let mut app = App::default();
    app.mode = AppMode::CommitMessage;
    app.handle_input(Key::Char('a'), 0);
    app.handle_input(Key::Char('c'), 0);
    app.handle_input(Key::Left, 0);
    app.handle_input(Key::Char('b'), 0);
    assert_eq!(draft(&app), "abc");
    assert_eq!(app.cursor_position, 2);
    app.handle_input(Key::Home, 0);
    assert_eq!(app.cursor_position, 0);
    app.handle_input(Key::End, 0);
    assert_eq!(app.cursor_position, 3);
    app.handle_input(Key::Right, 0);
    assert_eq!(app.cursor_position, 3);
}

#[test]
fn compose_backspace_and_delete() {
    let mut app = App::default();
    app.mode = AppMode::CommitMessage;
    for c in "abcd".chars() {
        app.handle_input(Key::Char(c), 0);
    }
    app.handle_input(Key::Backspace, 0);
    assert_eq!(draft(&app), "abc");
    assert_eq!(app.cursor_position, 3);
    app.handle_input(Key::Home, 0);
    app.handle_input(Key::Delete, 0);
    assert_eq!(draft(&app), "bc");
    assert_eq!(app.cursor_position, 0);
    app.handle_input(Key::Backspace, 0);
    assert_eq!(draft(&app), "bc");
}

#[test]
fn compose_single_edit_round_trip() {
    let mut app = App::default();
    app.mode = AppMode::CommitMessage;
    for c in "fix".chars() {
        app.handle_input(Key::Char(c), 0);
    }
    app.handle_input(Key::Left, 0);
    let before = draft(&app);
    let cursor_before = app.cursor_position;
    app.handle_input(Key::Char('!'), 0);
    app.handle_input(Key::Backspace, 0);
    assert_eq!(draft(&app), before);
    assert_eq!(app.cursor_position, cursor_before);
}

#[test]
fn blank_submit_is_rejected() {
    let mut app = App::default();
    app.mode = AppMode::CommitMessage;
    for c in "  \t ".chars() {
        app.handle_input(Key::Char(c), 0);
    }
    let a = app.handle_input(Key::Enter, 9);
    assert!(matches!(a, Action::Nothing));
    assert_eq!(app.mode, AppMode::CommitMessage);
    assert_eq!(draft(&app), "  \t ");
    assert_eq!(notification_text(&app), "Commit message cannot be empty");
}

#[test]
fn empty_submit_is_rejected() {
    let mut app = App::default();
    app.mode = AppMode::CommitMessage;
    let a = app.handle_input(Key::Enter, 9);
    assert!(matches!(a, Action::Nothing));
    assert_eq!(app.mode, AppMode::CommitMessage);
    assert_eq!(notification_text(&app), "Commit message cannot be empty");
}

#[test]
fn submit_returns_commit_action() {
    let mut app = App::default();
    app.mode = AppMode::CommitMessage;
    for c in "fix: typo".chars() {
        app.handle_input(Key::Char(c), 0);
    }
    let a = app.handle_input(Key::Enter, 0);
    match a {
        Action::Commit { message } => {
            let text: String = message.iter().collect();
            assert_eq!(text, "fix: typo");
        },
        _ => panic!("expected a commit action"),
    }
    assert_eq!(app.mode, AppMode::FileList);
}

#[test]
fn cancel_discards_draft() {
    let mut app = App::default();
    app.mode = AppMode::CommitMessage;
    for c in "abc".chars() {
        app.handle_input(Key::Char(c), 0);
    }
    let a = app.handle_input(Key::Esc, 0);
    assert!(matches!(a, Action::Nothing));
    assert_eq!(app.mode, AppMode::FileList);
    assert_eq!(draft(&app), "");
    assert_eq!(app.cursor_position, 0);
}

#[test]
fn tab_cycles_prefix_on_empty_draft() {
    let mut app = App::default();
    app.mode = AppMode::CommitMessage;
    app.handle_input(Key::Tab, 0);
    assert_eq!(app.selected_prefix, 1);
    assert_eq!(draft(&app), "fix: ");
    assert_eq!(app.cursor_position, 5);
}

#[test]
fn tab_is_noop_on_non_empty_draft() {
    let mut app = App::default();
    app.mode = AppMode::CommitMessage;
    app.handle_input(Key::Char('x'), 0);
    app.handle_input(Key::Tab, 0);
    assert_eq!(app.selected_prefix, 0);
    assert_eq!(draft(&app), "x");
}

#[test]
fn tab_cycles_through_whole_catalog() {
    let mut app = App::default();
    app.mode = AppMode::CommitMessage;
    for _ in 0..7 {
        app.commit_message = Vec::new();
        app.cursor_position = 0;
        app.handle_input(Key::Tab, 0);
    }
    assert_eq!(app.selected_prefix, 0);
    assert_eq!(draft(&app), "feat: ");
}

#[test]
fn notification_expires_after_three_seconds() {
    let mut app = App::default();
    app.show_notification("hello".to_string(), 1000);
    app.tick_notification(3900);
    assert_eq!(notification_text(&app), "hello");
    app.tick_notification(4101);
    assert!(app.notification.is_none());
}

#[test]
fn notification_boundary_is_strict() {
    let mut app = App::default();
    app.show_notification("hello".to_string(), 1000);
    app.tick_notification(4000);
    assert!(app.notification.is_some());
    app.tick_notification(4001);
    assert!(app.notification.is_none());
}

#[test]
fn newer_notification_replaces_older() {
    let mut app = App::default();
    app.show_notification("first".to_string(), 0);
    app.show_notification("second".to_string(), 1);
    assert_eq!(notification_text(&app), "second");
}

#[test]
fn refresh_replaces_files_and_clamps_selection() {
    let mut app = app_with_files(vec![
        file("a", FileStatus::Modified, false),
        file("b", FileStatus::Modified, false),
        file("c", FileStatus::Modified, false),
    ]);
    app.selected_file = 2;
    let status = GitStatus {
        current_branch: "main".to_string(),
        ahead: 1,
        behind: 2,
        files: vec![file("x", FileStatus::Staged, true)],
    };
    app.apply_refresh(status);
    assert_eq!(app.files.len(), 1);
    assert_eq!(app.files[0].path, "x");
    assert_eq!(app.selected_file, 0);
    assert_eq!(app.git_status.current_branch, "main");
    assert_eq!(app.git_status.ahead, 1);
    assert_eq!(app.git_status.behind, 2);
}

#[test]
fn refresh_to_empty_clears_selection() {
    let mut app = app_with_files(vec![file("a", FileStatus::Modified, false)]);
    let status = GitStatus {
        current_branch: "main".to_string(),
        ahead: 0,
        behind: 0,
        files: vec![],
    };
    app.apply_refresh(status);
    assert_eq!(app.files.len(), 0);
    assert_eq!(app.selected_file, 0);
}

#[test]
fn refresh_keeps_selection_in_range() {
    let mut app = app_with_files(vec![
        file("a", FileStatus::Modified, false),
        file("b", FileStatus::Modified, false),
    ]);
    app.selected_file = 1;
    let status = GitStatus {
        current_branch: "main".to_string(),
        ahead: 0,
        behind: 0,
        files: vec![
            file("a", FileStatus::Modified, false),
            file("b", FileStatus::Modified, false),
            file("c", FileStatus::Modified, false),
        ],
    };
    app.apply_refresh(status);
    assert_eq!(app.selected_file, 1);
}

#[test]
fn diff_content_shown_and_discarded() {
    let mut app = App::default();
    app.apply_diff("diff --git".to_string());
    assert_eq!(app.mode, AppMode::DiffView);
    assert_eq!(app.diff_content, "diff --git");
    app.handle_input(Key::Char('q'), 0);
    assert_eq!(app.mode, AppMode::FileList);
    assert_eq!(app.diff_content, "");
}

#[test]
fn diff_view_ignores_other_keys() {
    let mut app = App::default();
    app.apply_diff("x".to_string());
    app.handle_input(Key::Char('d'), 0);
    assert_eq!(app.mode, AppMode::DiffView);
    app.handle_input(Key::Esc, 0);
    assert_eq!(app.mode, AppMode::FileList);
}

#[test]
fn commit_success_clears_draft() {
    let mut app = App::default();
    app.mode = AppMode::CommitMessage;
    for c in "fix: x".chars() {
        app.handle_input(Key::Char(c), 0);
    }
    app.handle_input(Key::Enter, 0);
    app.apply_commit_result(true, "", 42);
    assert_eq!(draft(&app), "");
    assert_eq!(app.cursor_position, 0);
    assert_eq!(notification_text(&app), "Commit successful");
}

#[test]
fn commit_failure_keeps_draft_and_reports() {
    let mut app = App::default();
    app.mode = AppMode::CommitMessage;
    for c in "fix: x".chars() {
        app.handle_input(Key::Char(c), 0);
    }
    app.handle_input(Key::Enter, 0);
    app.apply_commit_result(false, " boom\n", 42);
    assert_eq!(draft(&app), "fix: x");
    assert_eq!(notification_text(&app), "Commit failed: boom");
}

#[test]
fn push_outcomes_are_reported() {
    let mut app = App::default();
    app.apply_push_result(true, "", 1);
    assert_eq!(notification_text(&app), "Push successful");
    app.apply_push_result(false, "rejected\n", 2);
    assert_eq!(notification_text(&app), "Push failed: rejected");
}

#[test]
fn has_staged_files_scans_the_list() {
    let app = app_with_files(vec![
        file("a", FileStatus::Modified, false),
        file("b", FileStatus::Staged, true),
    ]);
    assert!(app.has_staged_files());
    let app2 = app_with_files(vec![file("a", FileStatus::Modified, false)]);
    assert!(!app2.has_staged_files());
    let app3 = App::default();
    assert!(!app3.has_staged_files());
}
