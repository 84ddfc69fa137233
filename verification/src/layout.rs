//! The split-pane layout: from the session state and the terminal's size
//! to the text of every cell of the frame.

use vstd::prelude::*;
use vstd::string::*;
use crate::model::{CommitItem, FileItem};
use crate::parse::{display_path, short_id, shown_path, SHORT_ID_LEN};
use crate::state::AppState;
use crate::text::chars_of;
use crate::width::{truncate_to_width, truncated};

verus! {

/// The widths of the two panes and the number of body rows.
#[derive(Clone, Copy, Debug, PartialEq, Eq)]
pub struct Layout {
    pub list_width: u16,
    pub diff_width: u16,
    pub body_rows: u16,
}

/// The least width of the left pane.
pub const MIN_LIST_WIDTH: u16 = 28;

/// The share of the width that the left pane takes, in hundredths.
pub const LIST_SHARE: u32 = 38;

/// The rows that are not body rows: the header, the status line and the
/// hint or input line.
pub const RESERVED_ROWS: u16 = 3;

/// The width of the left pane of a terminal of `cols` columns.
pub open spec fn list_width_of(cols: int) -> int {
    if cols * LIST_SHARE / 100 >= MIN_LIST_WIDTH {
        cols * LIST_SHARE / 100
    } else {
        MIN_LIST_WIDTH as int
    }
}

/// Splits a terminal of `cols` columns and `rows` rows: the left pane takes
/// 38 hundredths of the width and at least 28 columns, one column is left
/// free, and the diff pane takes what remains; all rows but three are body
/// rows.
pub open spec fn layout_of(cols: u16, rows: u16) -> Layout {
    let list = list_width_of(cols as int);
    Layout {
        list_width: list as u16,
        diff_width: if cols > list + 1 {
            (cols - list - 1) as u16
        } else {
            0
        },
        body_rows: if rows > RESERVED_ROWS {
            (rows - RESERVED_ROWS) as u16
        } else {
            0
        },
    }
}

/// Splits a terminal of `cols` columns and `rows` rows; see `layout_of`.
pub fn split(cols: u16, rows: u16) -> (l: Layout)
    ensures
        l == layout_of(cols, rows),
        l.list_width as int == list_width_of(cols as int),
        l.list_width >= MIN_LIST_WIDTH,
        l.diff_width as int + l.list_width + 1 <= cols || l.diff_width == 0,
{
    let share: u32 = (cols as u32) * LIST_SHARE / 100;
    let list_width: u16 = if share >= MIN_LIST_WIDTH as u32 {
        share as u16
    } else {
        MIN_LIST_WIDTH
    };
    let diff_width: u16 = if cols > list_width + 1 {
        cols - list_width - 1
    } else {
        0
    };
    let body_rows: u16 = if rows > RESERVED_ROWS {
        rows - RESERVED_ROWS
    } else {
        0
    };
    Layout { list_width, diff_width, body_rows }
}

/// The decimal digit `d`.
pub open spec fn digit(d: int) -> char {
    if d == 0 {
        '0'
    } else if d == 1 {
        '1'
    } else if d == 2 {
        '2'
    } else if d == 3 {
        '3'
    } else if d == 4 {
        '4'
    } else if d == 5 {
        '5'
    } else if d == 6 {
        '6'
    } else if d == 7 {
        '7'
    } else if d == 8 {
        '8'
    } else {
        '9'
    }
}

/// `n` in decimal digits, without leading zeros.
pub open spec fn decimal(n: nat) -> Seq<char>
    decreases n,
{
    if n < 10 {
        seq![digit(n as int)]
    } else {
        decimal(n / 10).push(digit((n % 10) as int))
    }
}

/// The decimal digit `d`.
pub fn digit_char(d: usize) -> (c: char)
    requires
        d < 10,
    ensures
        c == digit(d as int),
{
    if d == 0 {
        '0'
    } else if d == 1 {
        '1'
    } else if d == 2 {
        '2'
    } else if d == 3 {
        '3'
    } else if d == 4 {
        '4'
    } else if d == 5 {
        '5'
    } else if d == 6 {
        '6'
    } else if d == 7 {
        '7'
    } else if d == 8 {
        '8'
    } else {
        '9'
    }
}

/// Appends `n` in decimal digits to `out`.
pub fn push_decimal(out: &mut String, n: usize)
    ensures
        final(out)@ == old(out)@ + decimal(n as nat),
    decreases n,
{
    if n < 10 {
        out.push(digit_char(n));
        proof {
            assert(final(out)@ =~= old(out)@ + decimal(n as nat));
        }
    } else {
        push_decimal(out, n / 10);
        out.push(digit_char(n % 10));
        proof {
            assert(final(out)@ =~= old(out)@ + decimal(n as nat));
        }
    }
}

/// `s` with every tab replaced by four spaces.
pub open spec fn expand_tabs(s: Seq<char>) -> Seq<char>
    decreases s.len(),
{
    if s.len() == 0 {
        Seq::<char>::empty()
    } else if s.last() == '\t' {
        expand_tabs(s.drop_last()) + seq![' ', ' ', ' ', ' ']
    } else {
        expand_tabs(s.drop_last()).push(s.last())
    }
}

/// Replaces every tab of `line` by four spaces.
pub fn expanded(line: &str) -> (out: String)
    ensures
        out@ == expand_tabs(line@),
{
    let v = chars_of(line);
    let mut out = String::new();
    let mut i: usize = 0;
    proof {
        assert(v@.take(0) =~= Seq::<char>::empty());
    }
    while i < v.len()
        invariant
            i <= v.len(),
            out@ == expand_tabs(v@.take(i as int)),
        decreases v.len() - i,
    {
        let c = v[i];
        proof {
            assert(v@.take(i as int + 1).drop_last() =~= v@.take(i as int));
            assert(v@.take(i as int + 1).last() == c);
        }
        if c == '\t' {
            out.append("    ");
            proof {
                reveal_strlit("    ");
                assert("    "@ =~= seq![' ', ' ', ' ', ' ']);
            }
        } else {
            out.push(c);
        }
        i += 1;
    }
    proof {
        assert(v@.take(v.len() as int) =~= v@);
    }
    out
}

/// The key hints of the bottom line in normal mode.
pub open spec fn hint_text() -> Seq<char> {
    "[j/k] files  [/] commits  [A] approve  [:] command  [Enter] diff"@
}

/// The header text: the short identifier and the summary of the selected
/// commit, or a note that there is none.
pub open spec fn header_text(selected: Option<CommitItem>) -> Seq<char> {
    match selected {
        Some(commit) => commit.id@.take(
            if commit.id@.len() <= SHORT_ID_LEN {
                commit.id@.len() as int
            } else {
                SHORT_ID_LEN as int
            },
        ) + " "@ + commit.summary@,
        None => "(no commit)"@,
    }
}

/// The text of the left cell of body row `row`: a marker (lit for the
/// selected row), the status and the shown path of file `row`; empty below
/// the last file.
pub open spec fn left_text(files: Seq<FileItem>, row: int, selected: int) -> Seq<char> {
    if 0 <= row < files.len() {
        (if row == selected {
            "\u{25b8} "@
        } else {
            "  "@
        }) + files[row].status@ + " "@ + shown_path(files[row]@)
    } else {
        Seq::<char>::empty()
    }
}

/// The text of the right cell of body row `row`: the diff line at the
/// scroll offset plus `row`, tabs expanded; empty below the last line.
pub open spec fn right_text(lines: Seq<String>, scroll: int, row: int) -> Seq<char> {
    if 0 <= scroll + row < lines.len() {
        expand_tabs(lines[scroll + row]@)
    } else {
        Seq::<char>::empty()
    }
}

/// The text of the status line: the status message, the number of files of
/// the selected commit and the position of the selected commit.
pub open spec fn status_text(status: Seq<char>, files: nat, position: nat, total: nat) -> Seq<char> {
    status + "  |  "@ + decimal(files) + " files  |  commit "@ + decimal(position) + "/"@ + decimal(
        total,
    )
}

/// The text of the bottom line: the prompt with the buffer in command
/// entry, the key hints otherwise.
pub open spec fn bottom_text(input_mode: bool, buffer: Seq<char>) -> Seq<char> {
    if input_mode {
        ":"@ + buffer
    } else {
        hint_text()
    }
}

/// One body row: the left cell, the diff cell, and whether the left cell is
/// lit as the selected one.
pub struct Row {
    pub left: String,
    pub right: String,
    pub selected: bool,
}

/// The text of a whole frame.
pub struct Frame {
    pub layout: Layout,
    pub header: String,
    pub rows: Vec<Row>,
    pub status: String,
    pub bottom: String,
}

/// The cached files of the selected commit, or none.
pub open spec fn shown_files(app: &AppState) -> Seq<FileItem> {
    match app.selected_files() {
        Some(files) => files@,
        None => Seq::<FileItem>::empty(),
    }
}

/// The selected commit, if there is one.
pub open spec fn shown_commit(app: &AppState) -> Option<CommitItem> {
    if app.commit_index < app.commits.len() {
        Some(app.commits[app.commit_index as int])
    } else {
        None
    }
}

/// Whether `frame` is the frame of `app` with the diff lines `lines` on a
/// terminal of `cols` columns: every cell is its text, cut to the width of
/// its pane or of the terminal.
pub open spec fn frame_of(frame: Frame, app: &AppState, lines: Seq<String>, cols: u16) -> bool {
    &&& frame.rows@.len() == frame.layout.body_rows
    &&& frame.header@ == truncated(header_text(shown_commit(app)), frame.layout.list_width as nat)
    &&& forall|r: int|
        0 <= r < frame.rows@.len() ==> {
            &&& (#[trigger] frame.rows@[r]).left@ == truncated(
                left_text(shown_files(app), r, app.file_index as int),
                frame.layout.list_width as nat,
            )
            &&& frame.rows@[r].right@ == truncated(
                right_text(lines, app.diff_scroll as int, r),
                frame.layout.diff_width as nat,
            )
            &&& frame.rows@[r].selected == (r == app.file_index)
        }
    &&& frame.status@ == truncated(
        status_text(
            app.status@,
            shown_files(app).len(),
            (app.commit_index + 1) as nat,
            app.commits@.len(),
        ),
        cols as nat,
    )
    &&& frame.bottom@ == truncated(bottom_text(app.input_mode, app.input_buffer@), cols as nat)
}

/// The left cell of body row `row`, before it is cut.
pub fn left_cell(files: &Vec<FileItem>, row: usize, selected: usize) -> (out: String)
    ensures
        out@ == left_text(files@, row as int, selected as int),
{
    let mut out = String::new();
    if row < files.len() {
        let file = &files[row];
        if row == selected {
            out.append("\u{25b8} ");
        } else {
            out.append("  ");
        }
        out.append(file.status.as_str());
        out.append(" ");
        let path = display_path(file);
        out.append(path.as_str());
        proof {
            assert(out@ =~= left_text(files@, row as int, selected as int));
        }
    }
    out
}

/// The diff cell of body row `row`, before it is cut.
pub fn right_cell(lines: &Vec<String>, scroll: usize, row: usize) -> (out: String)
    ensures
        out@ == right_text(lines@, scroll as int, row as int),
{
    if scroll < lines.len() && row < lines.len() - scroll {
        expanded(lines[scroll + row].as_str())
    } else {
        String::new()
    }
}

/// Lays out one frame: the header, one row per body row with the file of
/// that row on the left and the diff line of that row on the right, the
/// status line and the bottom line.
pub fn draw_ui(app: &AppState, lines: &Vec<String>, cols: u16, rows: u16) -> (frame: Frame)
    requires
        app.wf(),
    ensures
        frame.layout == layout_of(cols, rows),
        frame_of(frame, app, lines@, cols),
{
    let layout = split(cols, rows);
    let header_left = match app.selected_commit() {
        Some(commit) => {
            let mut h = short_id(commit.id.as_str());
            h.append(" ");
            h.append(commit.summary.as_str());
            h
        },
        None => String::from_str("(no commit)"),
    };
    let header = truncate_to_width(header_left.as_str(), layout.list_width as usize);
    let none: Vec<FileItem> = Vec::new();
    let files: &Vec<FileItem> = match app.files_for_selected_commit() {
        Some(files) => files,
        None => &none,
    };
    let mut body: Vec<Row> = Vec::new();
    let mut row: usize = 0;
    while row < layout.body_rows as usize
        invariant
            row <= layout.body_rows,
            body@.len() == row,
            files@ == shown_files(app),
            forall|r: int|
                0 <= r < row ==> {
                    &&& (#[trigger] body@[r]).left@ == truncated(
                        left_text(shown_files(app), r, app.file_index as int),
                        layout.list_width as nat,
                    )
                    &&& body@[r].right@ == truncated(
                        right_text(lines@, app.diff_scroll as int, r),
                        layout.diff_width as nat,
                    )
                    &&& body@[r].selected == (r == app.file_index)
                },
        decreases layout.body_rows - row,
    {
        let left = left_cell(files, row, app.file_index);
        let right = right_cell(lines, app.diff_scroll, row);
        body.push(
            Row {
                left: truncate_to_width(left.as_str(), layout.list_width as usize),
                right: truncate_to_width(right.as_str(), layout.diff_width as usize),
                selected: row == app.file_index,
            },
        );
        row += 1;
    }
    let mut status = app.status.clone();
    status.append("  |  ");
    push_decimal(&mut status, files.len());
    status.append(" files  |  commit ");
    push_decimal(&mut status, app.commit_index + 1);
    status.append("/");
    push_decimal(&mut status, app.commits.len());
    let status_line = truncate_to_width(status.as_str(), cols as usize);
    let bottom = if app.input_mode {
        let mut prompt = String::from_str(":");
        prompt.append(app.input_buffer.as_str());
        prompt
    } else {
        String::from_str("[j/k] files  [/] commits  [A] approve  [:] command  [Enter] diff")
    };
    let bottom_line = truncate_to_width(bottom.as_str(), cols as usize);
    Frame { layout, header, rows: body, status: status_line, bottom: bottom_line }
}

} // verus!
