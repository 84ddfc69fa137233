//! The text formats of the two sources: name-status reports, commit logs,
//! diff output, and the shell words built from them.

use vstd::prelude::*;
use vstd::string::*;
use crate::model::{
    commits_view, files_view, keep_first, lemma_commits_view_take, text_view, CommitItem,
    CommitRecord, FileItem, FileRecord,
};
use crate::text::{
    chars_of, lines_from, next_line, rows_view, slice_of, split_fields, split_on, string_of,
    string_of_range, text_lines, trim_chars, trimmed,
};

verus! {

/// The lines of `v`, as character vectors.
pub fn line_rows(v: &Vec<char>) -> (out: Vec<Vec<char>>)
    ensures
        rows_view(out@) == text_lines(v@),
{
    let mut out: Vec<Vec<char>> = Vec::new();
    let mut pos: usize = 0;
    proof {
        assert(rows_view(out@) + lines_from(v@, 0) =~= text_lines(v@));
    }
    while pos < v.len()
        invariant
            pos <= v.len(),
            rows_view(out@) + lines_from(v@, pos as int) == text_lines(v@),
        decreases v.len() - pos,
    {
        let (end, next) = next_line(v, pos);
        let mut row: Vec<char> = Vec::new();
        let mut i: usize = pos;
        while i < end
            invariant
                pos <= i <= end <= v.len(),
                row@ == v@.subrange(pos as int, i as int),
            decreases end - i,
        {
            row.push(v[i]);
            i += 1;
            proof {
                assert(row@ =~= v@.subrange(pos as int, i as int));
            }
        }
        proof {
            assert(rows_view(out@.push(row)) + lines_from(v@, next as int) =~= rows_view(out@) + (
            seq![row@] + lines_from(v@, next as int)));
        }
        out.push(row);
        pos = next;
    }
    proof {
        assert(lines_from(v@, pos as int) =~= Seq::<Seq<char>>::empty());
        assert(rows_view(out@) + Seq::<Seq<char>>::empty() =~= rows_view(out@));
    }
    out
}

/// The lines of `output`: split at line feeds, a carriage return before a
/// line feed dropped, and no empty line after a final line feed.
pub fn split_lines(output: &str) -> (out: Vec<String>)
    ensures
        text_view(out@) == text_lines(output@),
{
    let v = chars_of(output);
    let rows = line_rows(&v);
    let mut out: Vec<String> = Vec::new();
    let mut i: usize = 0;
    while i < rows.len()
        invariant
            i <= rows.len(),
            text_view(out@) == rows_view(rows@).take(i as int),
        decreases rows.len() - i,
    {
        let line = string_of(&rows[i]);
        proof {
            assert(text_view(out@.push(line)) =~= text_view(out@).push(line@));
            assert(rows_view(rows@).take(i as int + 1) =~= rows_view(rows@).take(i as int).push(
                rows@[i as int]@,
            ));
        }
        out.push(line);
        i += 1;
    }
    proof {
        assert(rows_view(rows@).take(rows.len() as int) =~= rows_view(rows@));
    }
    out
}

/// What one line of a name-status report says: a status and a path, and for
/// a rename (a status that starts with `R`, and three fields) the path
/// before the rename and the path after it. A line with fewer than two
/// tab-separated fields says nothing.
pub open spec fn file_record(line: Seq<char>) -> Option<FileRecord> {
    let parts = split_on(line, '\t');
    let status = trimmed(parts[0]);
    if status.len() > 0 && status[0] == 'R' && parts.len() >= 3 {
        Some(FileRecord { status, path: parts[2], original_path: Some(parts[1]) })
    } else if parts.len() >= 2 {
        Some(FileRecord { status, path: parts[1], original_path: None })
    } else {
        None
    }
}

/// The records of the lines that say something, in order.
pub open spec fn file_records(lines: Seq<Seq<char>>) -> Seq<FileRecord>
    decreases lines.len(),
{
    if lines.len() == 0 {
        Seq::<FileRecord>::empty()
    } else {
        match file_record(lines.last()) {
            Some(r) => file_records(lines.drop_last()).push(r),
            None => file_records(lines.drop_last()),
        }
    }
}

/// Reads one line of a name-status report.
pub fn parse_file_line(line: &Vec<char>) -> (r: Option<FileItem>)
    ensures
        match r {
            Some(item) => file_record(line@) == Some(item@),
            None => file_record(line@) is None,
        },
{
    proof {
        assert(line@.subrange(0, line.len() as int) =~= line@);
    }
    let parts = split_fields(line, 0, line.len(), '\t');
    proof {
        assert(forall|i: int| 0 <= i < parts@.len() ==> rows_view(parts@)[i] == parts@[i]@);
    }
    let first = &parts[0];
    let (lo, hi) = trim_chars(first);
    let status = string_of_range(first, lo, hi);
    let renamed = lo < hi && first[lo] == 'R';
    proof {
        assert(status@.len() == hi - lo);
        assert(lo < hi ==> status@[0] == first@[lo as int]);
    }
    if renamed && parts.len() >= 3 {
        Some(
            FileItem {
                status,
                path: string_of(&parts[2]),
                original_path: Some(string_of(&parts[1])),
            },
        )
    } else if parts.len() >= 2 {
        Some(FileItem { status, path: string_of(&parts[1]), original_path: None })
    } else {
        None
    }
}

/// Reads a name-status report: one record per line, lines that hold no
/// status and path left out.
pub fn parse_name_status(output: &str) -> (items: Vec<FileItem>)
    ensures
        files_view(items@) == file_records(text_lines(output@)),
{
    let v = chars_of(output);
    let rows = line_rows(&v);
    let mut items: Vec<FileItem> = Vec::new();
    let mut i: usize = 0;
    proof {
        assert(rows_view(rows@).take(0) =~= Seq::<Seq<char>>::empty());
        assert(files_view(items@) =~= Seq::<FileRecord>::empty());
    }
    while i < rows.len()
        invariant
            i <= rows.len(),
            files_view(items@) == file_records(rows_view(rows@).take(i as int)),
        decreases rows.len() - i,
    {
        let parsed = parse_file_line(&rows[i]);
        proof {
            let upto = rows_view(rows@).take(i as int + 1);
            assert(upto.last() == rows@[i as int]@);
            assert(upto.drop_last() =~= rows_view(rows@).take(i as int));
        }
        match parsed {
            Some(item) => {
                proof {
                    assert(files_view(items@.push(item)) =~= files_view(items@).push(item@));
                }
                items.push(item);
            },
            None => {},
        }
        i += 1;
    }
    proof {
        assert(rows_view(rows@).take(rows.len() as int) =~= rows_view(rows@));
    }
    items
}

/// The text that a file row shows for `file`: `original -> new` for a
/// rename whose first path is known, the bare path otherwise.
pub open spec fn shown_path(file: FileRecord) -> Seq<char> {
    if file.status.len() > 0 && file.status[0] == 'R' && file.original_path is Some {
        file.original_path->0 + " -> "@ + file.path
    } else {
        file.path
    }
}

/// The text that a file row shows for `file`.
pub fn display_path(file: &FileItem) -> (out: String)
    ensures
        out@ == shown_path(file@),
{
    let status = chars_of(file.status.as_str());
    match &file.original_path {
        Some(original) => {
            if status.len() > 0 && status[0] == 'R' {
                let mut out = original.clone();
                out.append(" -> ");
                out.append(file.path.as_str());
                out
            } else {
                file.path.clone()
            }
        },
        None => file.path.clone(),
    }
}

/// A line with fewer than two tab-separated fields gives no row; a row has
/// a first path only if its status starts with `R`, and is then shown as
/// `original -> new`; every other row is shown as its bare path.
pub proof fn lemma_file_rows(line: Seq<char>)
    ensures
        split_on(line, '\t').len() < 2 <==> file_record(line) is None,
        file_record(line) matches Some(r) ==> {
            &&& r.original_path is Some ==> r.status.len() > 0 && r.status[0] == 'R'
            &&& r.original_path matches Some(original) ==> shown_path(r) == original + " -> "@
                + r.path
            &&& r.original_path is None ==> shown_path(r) == r.path
        },
{
}

/// The index of the first tab of `s` at or after `from`, or the length of
/// `s` when there is none.
pub open spec fn tab_end(s: Seq<char>, from: int) -> int
    decreases s.len() - from,
{
    if from < 0 || from >= s.len() || s[from] == '\t' {
        from
    } else {
        tab_end(s, from + 1)
    }
}

/// What one line of a commit log says: the identifier before the first tab
/// and the summary after it, both without surrounding white space. A line
/// without an identifier says nothing.
pub open spec fn commit_record(line: Seq<char>) -> Option<CommitRecord> {
    let cut = tab_end(line, 0);
    let id = trimmed(line.subrange(0, cut));
    if id.len() == 0 {
        None
    } else if cut < line.len() {
        Some(CommitRecord { id, summary: trimmed(line.subrange(cut + 1, line.len() as int)) })
    } else {
        Some(CommitRecord { id, summary: Seq::<char>::empty() })
    }
}

/// The records of the lines that say something, in order.
pub open spec fn commit_records(lines: Seq<Seq<char>>) -> Seq<CommitRecord>
    decreases lines.len(),
{
    if lines.len() == 0 {
        Seq::<CommitRecord>::empty()
    } else {
        match commit_record(lines.last()) {
            Some(r) => commit_records(lines.drop_last()).push(r),
            None => commit_records(lines.drop_last()),
        }
    }
}

/// Reads one line of a commit log.
pub fn parse_commit_line(line: &Vec<char>) -> (r: Option<CommitItem>)
    ensures
        match r {
            Some(item) => commit_record(line@) == Some(item@),
            None => commit_record(line@) is None,
        },
{
    let mut cut: usize = 0;
    while cut < line.len() && line[cut] != '\t'
        invariant
            cut <= line.len(),
            tab_end(line@, 0) == tab_end(line@, cut as int),
        decreases line.len() - cut,
    {
        cut += 1;
    }
    let head = slice_of(line, 0, cut);
    let (lo, hi) = trim_chars(&head);
    if lo == hi {
        return None;
    }
    let id = string_of_range(&head, lo, hi);
    let summary = if cut < line.len() {
        let tail = slice_of(line, cut + 1, line.len());
        let (from, to) = trim_chars(&tail);
        string_of_range(&tail, from, to)
    } else {
        String::new()
    };
    Some(CommitItem { id, summary })
}

/// Reads a commit log, one commit per line as `id<TAB>summary`, and keeps
/// the first `limit` commits.
pub fn load_stack_commits(output: &str, limit: usize) -> (commits: Vec<CommitItem>)
    ensures
        commits_view(commits@) == commit_records(text_lines(output@)).take(
            if limit <= commit_records(text_lines(output@)).len() {
                limit as int
            } else {
                commit_records(text_lines(output@)).len() as int
            },
        ),
{
    let v = chars_of(output);
    let rows = line_rows(&v);
    let mut commits: Vec<CommitItem> = Vec::new();
    let mut i: usize = 0;
    proof {
        assert(rows_view(rows@).take(0) =~= Seq::<Seq<char>>::empty());
        assert(commits_view(commits@) =~= Seq::<CommitRecord>::empty());
    }
    while i < rows.len()
        invariant
            i <= rows.len(),
            commits_view(commits@) == commit_records(rows_view(rows@).take(i as int)),
        decreases rows.len() - i,
    {
        let parsed = parse_commit_line(&rows[i]);
        proof {
            let upto = rows_view(rows@).take(i as int + 1);
            assert(upto.last() == rows@[i as int]@);
            assert(upto.drop_last() =~= rows_view(rows@).take(i as int));
        }
        match parsed {
            Some(item) => {
                proof {
                    assert(commits_view(commits@.push(item)) =~= commits_view(commits@).push(item@));
                }
                commits.push(item);
            },
            None => {},
        }
        i += 1;
    }
    proof {
        assert(rows_view(rows@).take(rows.len() as int) =~= rows_view(rows@));
        let n = if limit <= commits@.len() {
            limit as int
        } else {
            commits@.len() as int
        };
        lemma_commits_view_take(commits@, n);
    }
    keep_first(&mut commits, limit);
    commits
}

/// The number of characters of a short identifier.
pub const SHORT_ID_LEN: usize = 8;

/// The first eight characters of `commit_id`, or all of it when it is
/// shorter.
pub fn short_id(commit_id: &str) -> (out: String)
    ensures
        out@ == commit_id@.take(
            if commit_id@.len() <= SHORT_ID_LEN {
                commit_id@.len() as int
            } else {
                SHORT_ID_LEN as int
            },
        ),
{
    let v = chars_of(commit_id);
    let n: usize = if v.len() <= SHORT_ID_LEN {
        v.len()
    } else {
        SHORT_ID_LEN
    };
    let out = string_of_range(&v, 0, n);
    proof {
        assert(v@.subrange(0, n as int) =~= commit_id@.take(n as int));
    }
    out
}

/// `s` with every single quote replaced by `'\''`.
pub open spec fn quoted_body(s: Seq<char>) -> Seq<char>
    decreases s.len(),
{
    if s.len() == 0 {
        Seq::<char>::empty()
    } else if s.last() == '\'' {
        quoted_body(s.drop_last()) + seq!['\'', '\\', '\'', '\'']
    } else {
        quoted_body(s.drop_last()).push(s.last())
    }
}

/// `s` as one word of a POSIX shell: within single quotes, each single
/// quote of `s` written as `'\''`.
pub open spec fn shell_quoted(s: Seq<char>) -> Seq<char> {
    seq!['\''] + quoted_body(s) + seq!['\'']
}

/// Quotes `value` as one word of a POSIX shell.
pub fn shell_quote(value: &str) -> (out: String)
    ensures
        out@ == shell_quoted(value@),
{
    let v = chars_of(value);
    let mut out = String::new();
    out.push('\'');
    let mut i: usize = 0;
    proof {
        assert(v@.take(0) =~= Seq::<char>::empty());
        assert(out@ =~= seq!['\''] + quoted_body(v@.take(0)));
    }
    while i < v.len()
        invariant
            i <= v.len(),
            out@ == seq!['\''] + quoted_body(v@.take(i as int)),
        decreases v.len() - i,
    {
        let c = v[i];
        proof {
            assert(v@.take(i as int + 1).drop_last() =~= v@.take(i as int));
            assert(v@.take(i as int + 1).last() == c);
        }
        if c == '\'' {
            out.push('\'');
            out.push('\\');
            out.push('\'');
            out.push('\'');
            proof {
                assert(out@ =~= seq!['\''] + (quoted_body(v@.take(i as int)) + seq![
                    '\'',
                    '\\',
                    '\'',
                    '\'',
                ]));
            }
        } else {
            out.push(c);
            proof {
                assert(out@ =~= seq!['\''] + quoted_body(v@.take(i as int)).push(c));
            }
        }
        i += 1;
    }
    out.push('\'');
    proof {
        assert(v@.take(v.len() as int) =~= v@);
    }
    out
}

} // verus!
