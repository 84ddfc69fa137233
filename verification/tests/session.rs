use inspect::dispatch::{handle_key, Action, Key, KeyCode};
use inspect::model::{CommitItem, FileItem, ViewMode};
use inspect::state::{clamped_step, shifted_offset, AppState};

fn commit(id: &str, summary: &str) -> CommitItem {
    CommitItem { id: id.to_string(), summary: summary.to_string() }
}

fn file(status: &str, path: &str) -> FileItem {
    FileItem { status: status.to_string(), path: path.to_string(), original_path: None }
}

fn two_commits() -> AppState {
    let mut app = AppState::new("/repo".to_string(), "main".to_string(), ViewMode::Stack);
    let list = vec![commit("abc123de", "fix bug"), commit("def456ab", "add test")];
    assert_eq!(app.refresh(Ok(list), 50), Ok(()));
    app
}

fn press(code: KeyCode) -> Key {
    Key { code, control: false }
}

#[test]
fn new_session_is_empty() {
    let app = AppState::new("/repo".to_string(), "main".to_string(), ViewMode::Queue);
    assert_eq!(app.repo, "/repo");
    assert_eq!(app.base_revset, "main");
    assert_eq!(app.mode, ViewMode::Queue);
    assert!(app.commits.is_empty());
    assert_eq!((app.commit_index, app.file_index, app.diff_scroll), (0, 0, 0));
    assert_eq!(app.status, "");
    assert!(!app.input_mode);
    assert_eq!(app.input_buffer, "");
    assert!(app.selected_commit().is_none());
    assert!(app.files_request().is_none());
}

#[test]
fn previous_commit_returns_to_first() {
    let mut app = two_commits();
    app.move_commit(1);
    assert_eq!(app.commit_index, 1);
    app.ensure_files_loaded(vec![file("M", "a"), file("M", "b")]);
    app.move_file_selection(1);
    app.scroll_diff(10);
    assert_eq!((app.file_index, app.diff_scroll), (1, 10));
    let action = handle_key(&mut app, press(KeyCode::Char('[')));
    assert_eq!(action, Action::Continue);
    assert_eq!(app.commit_index, 0);
    assert_eq!(app.file_index, 0);
    assert_eq!(app.diff_scroll, 0);
}

#[test]
fn commit_cursor_clamps_and_never_wraps() {
    let mut app = two_commits();
    for delta in [5isize, -7, 1, 1, 1, isize::MAX, isize::MIN, -1, 2] {
        app.move_commit(delta);
        assert!(app.commit_index < app.commits.len());
    }
    app.move_commit(isize::MAX);
    assert_eq!(app.commit_index, 1);
    app.move_commit(isize::MIN);
    assert_eq!(app.commit_index, 0);
}

#[test]
fn clamped_step_values() {
    assert_eq!(clamped_step(0, 1, 3), 1);
    assert_eq!(clamped_step(2, 1, 3), 2);
    assert_eq!(clamped_step(0, -1, 3), 0);
    assert_eq!(clamped_step(2, -5, 3), 0);
    assert_eq!(clamped_step(7, 0, 3), 2);
    assert_eq!(clamped_step(1, isize::MAX, 3), 2);
    assert_eq!(clamped_step(1, isize::MIN, 3), 0);
    assert_eq!(shifted_offset(5, -10), 0);
    assert_eq!(shifted_offset(5, 10), 15);
    assert_eq!(shifted_offset(usize::MAX, 10), usize::MAX);
}

#[test]
fn move_to_same_index_keeps_cursors() {
    let mut app = two_commits();
    app.ensure_files_loaded(vec![file("M", "a"), file("M", "b")]);
    app.move_file_selection(1);
    app.scroll_diff(10);
    app.move_commit(-1);
    assert_eq!((app.commit_index, app.file_index, app.diff_scroll), (0, 1, 10));
    app.move_file_selection(1);
    assert_eq!((app.file_index, app.diff_scroll), (1, 10));
    assert!(app.files_request().is_none());
}

#[test]
fn changing_commit_resets_cursors() {
    let mut app = two_commits();
    app.ensure_files_loaded(vec![file("M", "a"), file("M", "b")]);
    app.move_file_selection(1);
    app.scroll_diff(3);
    app.move_commit(1);
    assert_eq!((app.commit_index, app.file_index, app.diff_scroll), (1, 0, 0));
    assert_eq!(app.files_request(), Some("def456ab"));
}

#[test]
fn file_moves_and_jumps() {
    let mut app = two_commits();
    app.move_file_selection(1);
    assert_eq!(app.file_index, 0);
    app.jump_file_bottom();
    assert_eq!(app.file_index, 0);
    app.ensure_files_loaded(vec![file("M", "a"), file("A", "b"), file("D", "c")]);
    app.scroll_diff(4);
    app.move_file_selection(1);
    assert_eq!((app.file_index, app.diff_scroll), (1, 0));
    assert_eq!(app.selected_file().map(|f| f.path.as_str()), Some("b"));
    app.move_file_selection(9);
    assert_eq!(app.file_index, 2);
    app.scroll_diff(4);
    app.jump_file_top();
    assert_eq!((app.file_index, app.diff_scroll), (0, 0));
    app.scroll_diff(4);
    app.jump_file_bottom();
    assert_eq!((app.file_index, app.diff_scroll), (2, 0));
    app.scroll_diff(-1);
    assert_eq!(app.diff_scroll, 0);
}

#[test]
fn files_are_stored_once() {
    let mut app = two_commits();
    assert_eq!(app.files_request(), Some("abc123de"));
    app.ensure_files_loaded(vec![file("M", "a")]);
    assert!(app.files_request().is_none());
    app.ensure_files_loaded(vec![file("M", "x"), file("M", "y")]);
    let files = app.files_for_selected_commit().map(|f| f.len());
    assert_eq!(files, Some(1));
}

#[test]
fn diff_is_fetched_once() {
    let mut app = two_commits();
    let f = file("M", "a");
    assert!(!app.diff_is_cached("abc123de", Some(&f)));
    let first = app.diff_lines("abc123de", Some(&f), vec!["+x".to_string(), "-y".to_string()]);
    assert!(app.diff_is_cached("abc123de", Some(&f)));
    let second = app.diff_lines("abc123de", Some(&f), vec!["other".to_string()]);
    assert_eq!(first, vec!["+x".to_string(), "-y".to_string()]);
    assert_eq!(first, second);
    assert_eq!(app.diff_cache.len(), 1);
    assert!(!app.diff_is_cached("abc123de", None));
    let whole = app.diff_lines("abc123de", None, vec!["all".to_string()]);
    assert_eq!(whole, vec!["all".to_string()]);
    assert_eq!(app.diff_lines("abc123de", Some(&f), Vec::new()), first);
    let g = file("M", "de::a");
    assert!(!app.diff_is_cached("abc123", Some(&g)));
}

#[test]
fn refresh_clears_everything() {
    let mut app = two_commits();
    assert_eq!(app.status, "stack base: main");
    app.move_commit(1);
    app.ensure_files_loaded(vec![file("M", "a"), file("M", "b")]);
    app.move_file_selection(1);
    app.scroll_diff(10);
    app.diff_lines("def456ab", None, vec!["x".to_string()]);
    assert_eq!(app.refresh(Ok(Vec::new()), 50), Ok(()));
    assert!(app.commits.is_empty());
    assert_eq!((app.commit_index, app.file_index, app.diff_scroll), (0, 0, 0));
    assert!(app.files_cache.is_empty());
    assert!(app.diff_cache.is_empty());
    assert!(!app.diff_is_cached("def456ab", None));
}

#[test]
fn refresh_keeps_limit_and_reports_queue() {
    let mut app = AppState::new("/repo".to_string(), String::new(), ViewMode::Queue);
    let list = vec![commit("a", "1"), commit("b", "2"), commit("c", "3")];
    assert_eq!(app.refresh(Ok(list), 2), Ok(()));
    assert_eq!(app.commits.len(), 2);
    assert_eq!(app.commits[1].id, "b");
    assert_eq!(app.status, "queue: flow commit-queue");
}

#[test]
fn failed_refresh_changes_nothing() {
    let mut app = two_commits();
    app.move_commit(1);
    app.scroll_diff(10);
    let r = app.refresh(Err("jj failed: no repo".to_string()), 50);
    assert_eq!(r, Err("jj failed: no repo".to_string()));
    assert_eq!(app.commits.len(), 2);
    assert_eq!((app.commit_index, app.diff_scroll), (1, 10));
    assert_eq!(app.status, "stack base: main");
}

#[test]
fn confirm_submits_buffer_once() {
    let mut app = two_commits();
    assert_eq!(handle_key(&mut app, press(KeyCode::Char(':'))), Action::Continue);
    assert!(app.input_mode);
    for ch in "approve 123".chars() {
        assert_eq!(handle_key(&mut app, press(KeyCode::Char(ch))), Action::Continue);
    }
    assert_eq!(app.input_buffer, "approve 123");
    let action = handle_key(&mut app, press(KeyCode::Enter));
    assert_eq!(action, Action::Run("approve 123".to_string()));
    assert!(!app.input_mode);
    assert_eq!(app.input_buffer, "");
}

#[test]
fn entry_mode_keys() {
    let mut app = two_commits();
    handle_key(&mut app, press(KeyCode::Char(':')));
    handle_key(&mut app, press(KeyCode::Char('j')));
    handle_key(&mut app, press(KeyCode::Char('q')));
    assert_eq!(app.input_buffer, "jq");
    assert_eq!(app.commit_index, 0);
    handle_key(&mut app, Key { code: KeyCode::Char('x'), control: true });
    assert_eq!(app.input_buffer, "jq");
    handle_key(&mut app, press(KeyCode::Backspace));
    assert_eq!(app.input_buffer, "j");
    handle_key(&mut app, press(KeyCode::Down));
    handle_key(&mut app, press(KeyCode::Backspace));
    handle_key(&mut app, press(KeyCode::Backspace));
    assert_eq!(app.input_buffer, "");
    assert!(app.input_mode);
    handle_key(&mut app, press(KeyCode::Char('a')));
    assert_eq!(handle_key(&mut app, press(KeyCode::Esc)), Action::Continue);
    assert!(!app.input_mode);
    assert_eq!(app.input_buffer, "");
    handle_key(&mut app, press(KeyCode::Char(':')));
    handle_key(&mut app, press(KeyCode::Char(' ')));
    assert_eq!(handle_key(&mut app, press(KeyCode::Enter)), Action::Continue);
    assert!(!app.input_mode);
    handle_key(&mut app, press(KeyCode::Char(':')));
    let interrupt = Key { code: KeyCode::Char('c'), control: true };
    assert_eq!(handle_key(&mut app, interrupt), Action::Quit);
}

#[test]
fn normal_mode_keys() {
    let mut app = two_commits();
    app.ensure_files_loaded(vec![file("M", "a"), file("M", "b")]);
    assert_eq!(handle_key(&mut app, press(KeyCode::Char('j'))), Action::Continue);
    assert_eq!(app.file_index, 1);
    handle_key(&mut app, press(KeyCode::Up));
    assert_eq!(app.file_index, 0);
    handle_key(&mut app, press(KeyCode::Down));
    handle_key(&mut app, press(KeyCode::Char('k')));
    assert_eq!(app.file_index, 0);
    handle_key(&mut app, press(KeyCode::PageDown));
    handle_key(&mut app, press(KeyCode::PageDown));
    handle_key(&mut app, press(KeyCode::PageUp));
    assert_eq!(app.diff_scroll, 10);
    handle_key(&mut app, press(KeyCode::Char('G')));
    assert_eq!((app.file_index, app.diff_scroll), (1, 0));
    handle_key(&mut app, press(KeyCode::Char('g')));
    assert_eq!(app.file_index, 0);
    handle_key(&mut app, press(KeyCode::Char(']')));
    assert_eq!(app.commit_index, 1);
    assert_eq!(handle_key(&mut app, press(KeyCode::Char('r'))), Action::Refresh(50));
    assert_eq!(handle_key(&mut app, press(KeyCode::Enter)), Action::OpenDiff);
    assert_eq!(handle_key(&mut app, press(KeyCode::Other)), Action::Continue);
    assert_eq!(handle_key(&mut app, press(KeyCode::Char('q'))), Action::Quit);
    let interrupt = Key { code: KeyCode::Char('c'), control: true };
    assert_eq!(handle_key(&mut app, interrupt), Action::Quit);
    assert_eq!(handle_key(&mut app, press(KeyCode::Char('c'))), Action::Continue);
    let mut empty = AppState::new("/repo".to_string(), "main".to_string(), ViewMode::Stack);
    assert_eq!(handle_key(&mut empty, press(KeyCode::Enter)), Action::Continue);
}

#[test]
fn approve_depends_on_mode() {
    let mut app = two_commits();
    assert_eq!(handle_key(&mut app, press(KeyCode::Char('A'))), Action::Continue);
    assert_eq!(app.status, "approve only works in queue mode");
    let mut queue = AppState::new("/repo".to_string(), String::new(), ViewMode::Queue);
    assert_eq!(queue.approve_selected(), None);
    queue.refresh(Ok(vec![commit("abc", "x")]), 50).unwrap();
    let action = handle_key(&mut queue, press(KeyCode::Char('A')));
    assert_eq!(action, Action::Run("f commit-queue approve abc".to_string()));
    assert_eq!(queue.status, "queue: flow commit-queue");
}

#[test]
fn command_outcome_becomes_status() {
    let mut app = two_commits();
    app.run_command("echo hi", Ok("  hi there\nsecond\n".to_string()));
    assert_eq!(app.status, "> hi there");
    app.run_command("true", Ok("\n".to_string()));
    assert_eq!(app.status, "> ok");
    app.run_command("false", Err("  boom \n".to_string()));
    assert_eq!(app.status, "command failed: boom");
    app.run_command(" \t", Ok("ignored".to_string()));
    assert_eq!(app.status, "command failed: boom");
    app.run_command("x", Ok("a\r\nb".to_string()));
    assert_eq!(app.status, "> a");
}
