use inspect::layout::{draw_ui, expanded, split};
use inspect::model::{CommitItem, FileItem, ViewMode};
use inspect::parse::{
    display_path, load_stack_commits, parse_name_status, shell_quote, short_id, split_lines,
};
use inspect::queue::{load_queue_commits, queue_summary, sort_by_creation, QueueEntry};
use inspect::source::{
    load_queue_diff, load_stack_diff, queue_parent, resolve_default_base, viewer_command,
};
use inspect::state::AppState;
use inspect::text::is_blank;
use inspect::width::truncate_to_width;

fn entry(at: &str, sha: &str, message: &str, review: Option<&str>) -> QueueEntry {
    QueueEntry {
        created_at: at.to_string(),
        commit_sha: sha.to_string(),
        message: message.to_string(),
        review_bookmark: review.map(|r| r.to_string()),
    }
}

#[test]
fn name_status_records() {
    let items = parse_name_status("M\tsrc/main.rs\nR100\told.txt\tnew.txt\n");
    assert_eq!(items.len(), 2);
    assert_eq!(items[0].status, "M");
    assert_eq!(items[0].path, "src/main.rs");
    assert_eq!(items[0].original_path, None);
    assert_eq!(items[1].status, "R100");
    assert_eq!(items[1].path, "new.txt");
    assert_eq!(items[1].original_path, Some("old.txt".to_string()));
}

#[test]
fn short_records_are_dropped() {
    let items = parse_name_status("garbage\n\n A \tx\ty\nR\tonly\nD\tgone\r\nM\tlast");
    let got: Vec<(&str, &str, Option<&str>)> = items
        .iter()
        .map(|f| (f.status.as_str(), f.path.as_str(), f.original_path.as_deref()))
        .collect();
    assert_eq!(
        got,
        vec![("A", "x", None), ("R", "only", None), ("D", "gone", None), ("M", "last", None)]
    );
    assert!(parse_name_status("").is_empty());
}

#[test]
fn rename_rows_show_both_paths() {
    let items = parse_name_status("R100\told.txt\tnew.txt\nM\tsrc/main.rs\n");
    assert_eq!(display_path(&items[0]), "old.txt -> new.txt");
    assert_eq!(display_path(&items[1]), "src/main.rs");
    let odd = FileItem {
        status: "M".to_string(),
        path: "p".to_string(),
        original_path: Some("q".to_string()),
    };
    assert_eq!(display_path(&odd), "p");
}

#[test]
fn lines_are_split_like_text() {
    assert_eq!(split_lines("a\nb\r\n\nc"), vec!["a", "b", "", "c"]);
    assert_eq!(split_lines("a\n"), vec!["a"]);
    assert_eq!(split_lines("a\r"), vec!["a\r"]);
    assert_eq!(split_lines("\n"), vec![""]);
    assert!(split_lines("").is_empty());
    for text in ["x\r\r\ny", "\r\n", "one\ntwo\n\n", "tail\r\n", "\n\nq"] {
        let expected: Vec<String> = text.lines().map(|l| l.to_string()).collect();
        assert_eq!(split_lines(text), expected);
    }
}

#[test]
fn commit_log_lines() {
    let log = "abc123\t fix bug \n\t no id\n  def456  \nghi789\tadd\ttabs\n";
    let commits = load_stack_commits(log, 50);
    let got: Vec<(&str, &str)> =
        commits.iter().map(|c| (c.id.as_str(), c.summary.as_str())).collect();
    assert_eq!(got, vec![("abc123", "fix bug"), ("def456", ""), ("ghi789", "add\ttabs")]);
    assert_eq!(load_stack_commits(log, 2).len(), 2);
    assert_eq!(load_stack_commits(log, 0).len(), 0);
}

#[test]
fn short_identifiers() {
    assert_eq!(short_id("abc"), "abc");
    assert_eq!(short_id("abc123de"), "abc123de");
    assert_eq!(short_id("abc123def456"), "abc123de");
    assert_eq!(short_id(""), "");
}

#[test]
fn shell_words() {
    assert_eq!(shell_quote("plain"), "'plain'");
    assert_eq!(shell_quote("it's"), "'it'\\''s'");
    assert_eq!(shell_quote(""), "''");
    assert_eq!(shell_quote("a b$c"), "'a b$c'");
}

#[test]
fn blank_commands() {
    assert!(is_blank(""));
    assert!(is_blank(" \t\n\u{a0}\u{2003}"));
    assert!(!is_blank("  x "));
}

#[test]
fn queue_summaries() {
    assert_eq!(queue_summary("", None), "(no message)");
    assert_eq!(queue_summary("", Some("rev-7")), "(no message)  [rev-7]");
    assert_eq!(queue_summary("fix bug\n\ndetails", None), "fix bug");
    assert_eq!(queue_summary("fix bug", Some("rev-7")), "fix bug  [rev-7]");
    assert_eq!(queue_summary("\nsecond", None), "(no message)");
}

#[test]
fn queue_is_ordered_by_creation() {
    let entries = vec![
        entry("2024-03-02T10:00:00Z", "c3", "third", None),
        entry("2024-03-01T09:00:00Z", "c1", "first", Some("rev-1")),
        entry("2024-03-02T10:00:00Z", "c4", "", None),
        entry("2024-03-01T10:00:00Z", "c2", "second\nmore", None),
        entry("2024-03-01", "c0", "prefix", None),
    ];
    let sorted = sort_by_creation(&entries);
    let order: Vec<&str> = sorted.iter().map(|e| e.commit_sha.as_str()).collect();
    assert_eq!(order, vec!["c0", "c1", "c2", "c3", "c4"]);
    let mut expected: Vec<&QueueEntry> = entries.iter().collect();
    expected.sort_by(|a, b| a.created_at.cmp(&b.created_at));
    let expected: Vec<&str> = expected.iter().map(|e| e.commit_sha.as_str()).collect();
    assert_eq!(order, expected);
    let commits = load_queue_commits(&entries, 4);
    let got: Vec<(&str, &str)> =
        commits.iter().map(|c| (c.id.as_str(), c.summary.as_str())).collect();
    assert_eq!(
        got,
        vec![("c0", "prefix"), ("c1", "first  [rev-1]"), ("c2", "second"), ("c3", "third")]
    );
    assert_eq!(load_queue_commits(&entries, 50).len(), 5);
    assert_eq!(load_queue_commits(&entries, 50)[4].summary, "(no message)");
}

#[test]
fn order_of_strings_is_by_code_point() {
    let entries = vec![
        entry("\u{10000}", "d", "", None),
        entry("\u{ff5e}", "c", "", None),
        entry("z", "b", "", None),
        entry("", "a", "", None),
    ];
    let sorted = sort_by_creation(&entries);
    let order: Vec<&str> = sorted.iter().map(|e| e.commit_sha.as_str()).collect();
    assert_eq!(order, vec!["a", "b", "c", "d"]);
}

#[test]
fn default_base_is_first_found() {
    assert_eq!(resolve_default_base(&vec![false, true, false, true, true]), "main@origin");
    assert_eq!(resolve_default_base(&vec![true]), "trunk()");
    assert_eq!(resolve_default_base(&vec![false, false, false, false, true]), "master");
    assert_eq!(resolve_default_base(&vec![false, false, false, false, false, true]), "root()");
    assert_eq!(resolve_default_base(&Vec::new()), "root()");
}

#[test]
fn diff_arguments() {
    let f = FileItem { status: "M".to_string(), path: "a b".to_string(), original_path: None };
    assert_eq!(load_stack_diff("abc", None), vec!["diff", "-r", "abc", "--color", "never"]);
    assert_eq!(
        load_stack_diff("abc", Some(&f)),
        vec!["diff", "-r", "abc", "--color", "never", "--", "a b"]
    );
    assert_eq!(
        load_queue_diff("p1", "abc", Some(&f)),
        vec!["diff", "p1", "abc", "--color", "never", "--", "a b"]
    );
    assert_eq!(queue_parent(Ok(" p1\n".to_string())), "p1");
    let empty = "4b825dc642cb6eb9a060e54bf8d69288fbee4904";
    assert_eq!(queue_parent(Ok("\n".to_string())), empty);
    assert_eq!(queue_parent(Err("fatal".to_string())), empty);
}

#[test]
fn viewer_pipelines() {
    let f = FileItem { status: "M".to_string(), path: "it's".to_string(), original_path: None };
    assert_eq!(
        viewer_command(ViewMode::Stack, "abc", None, "", "less -R"),
        "jj diff -r abc --color always | less -R"
    );
    assert_eq!(
        viewer_command(ViewMode::Stack, "abc", Some(&f), "", "less -R"),
        "jj diff -r abc --color always -- 'it'\\''s' | less -R"
    );
    assert_eq!(
        viewer_command(ViewMode::Queue, "abc", None, "p1", "more"),
        "git diff --color=always p1 abc | more"
    );
    assert_eq!(
        viewer_command(ViewMode::Queue, "abc", Some(&f), "p1", "more"),
        "git diff --color=always p1 abc -- 'it'\\''s' | more"
    );
}

#[test]
fn truncation_respects_columns() {
    assert_eq!(truncate_to_width("hello", 10), "hello");
    assert_eq!(truncate_to_width("hello", 5), "hello");
    assert_eq!(truncate_to_width("hello world", 5), "hello");
    assert_eq!(truncate_to_width("hello", 0), "");
    assert_eq!(truncate_to_width("", 4), "");
    assert_eq!(truncate_to_width("\u{65e5}\u{672c}\u{8a9e}", 5), "\u{65e5}\u{672c}\u{2026}");
    assert_eq!(truncate_to_width("\u{65e5}\u{672c}\u{8a9e}", 4), "\u{65e5}\u{672c}");
    assert_eq!(truncate_to_width("\u{65e5}\u{672c}\u{8a9e}", 6), "\u{65e5}\u{672c}\u{8a9e}");
    assert_eq!(truncate_to_width("\u{65e5}\u{672c}", 1), "");
    assert_eq!(truncate_to_width("a\u{65e5}", 2), "a\u{2026}");
    assert_eq!(truncate_to_width("e\u{301}x", 1), "e\u{301}");
}

#[test]
fn tabs_become_four_spaces() {
    assert_eq!(expanded("\ta\tb"), "    a    b");
    assert_eq!(expanded("plain"), "plain");
}

#[test]
fn panes_are_split() {
    let l = split(100, 40);
    assert_eq!((l.list_width, l.diff_width, l.body_rows), (38, 61, 37));
    let l = split(50, 10);
    assert_eq!((l.list_width, l.diff_width, l.body_rows), (28, 21, 7));
    let l = split(20, 2);
    assert_eq!((l.list_width, l.diff_width, l.body_rows), (28, 0, 0));
    let l = split(65535, 65535);
    assert_eq!((l.list_width, l.diff_width, l.body_rows), (24903, 40631, 65532));
}

#[test]
fn frame_of_a_session() {
    let mut app = AppState::new("/repo".to_string(), "main".to_string(), ViewMode::Stack);
    let list = vec![
        CommitItem { id: "abc123def456".to_string(), summary: "fix bug".to_string() },
        CommitItem { id: "def456ab".to_string(), summary: "add test".to_string() },
    ];
    app.refresh(Ok(list), 50).unwrap();
    app.ensure_files_loaded(parse_name_status("M\tsrc/main.rs\nR100\told.txt\tnew.txt\n"));
    app.move_file_selection(1);
    app.scroll_diff(1);
    let lines = vec!["skipped".to_string(), "+\tadded".to_string(), "-gone".to_string()];
    let frame = draw_ui(&app, &lines, 100, 6);
    assert_eq!(frame.layout, split(100, 6));
    assert_eq!(frame.header, "abc123de fix bug");
    assert_eq!(frame.rows.len(), 3);
    assert_eq!(frame.rows[0].left, "  M src/main.rs");
    assert_eq!(frame.rows[0].right, "+    added");
    assert!(!frame.rows[0].selected);
    assert_eq!(frame.rows[1].left, "\u{25b8} R100 old.txt -> new.txt");
    assert_eq!(frame.rows[1].right, "-gone");
    assert!(frame.rows[1].selected);
    assert_eq!(frame.rows[2].left, "");
    assert_eq!(frame.rows[2].right, "");
    assert_eq!(frame.status, "stack base: main  |  2 files  |  commit 1/2");
    assert_eq!(
        frame.bottom,
        "[j/k] files  [/] commits  [A] approve  [:] command  [Enter] diff"
    );
    app.input_mode = true;
    app.input_buffer = "approve 123".to_string();
    let narrow = draw_ui(&app, &lines, 40, 4);
    assert_eq!(narrow.bottom, ":approve 123");
    assert_eq!(narrow.rows.len(), 1);
    assert_eq!(narrow.rows[0].left, "  M src/main.rs");
    assert_eq!(narrow.rows[0].right, "+    added");
    assert_eq!(narrow.status, "stack base: main  |  2 files  |  commit ");
    let empty = AppState::new("/repo".to_string(), "main".to_string(), ViewMode::Stack);
    let frame = draw_ui(&empty, &Vec::new(), 80, 5);
    assert_eq!(frame.header, "(no commit)");
    assert_eq!(frame.status, "  |  0 files  |  commit 1/0");
}
