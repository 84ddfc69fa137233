//! The displayed items: commit summaries, changed-file entries and the
//! selector between the two data sources.

use vstd::prelude::*;

verus! {

/// One commit: an opaque identifier and a one-line summary.
pub struct CommitItem {
    pub id: String,
    pub summary: String,
}

/// One changed file of a commit. `original_path` is present only for a
/// rename and then holds the path before the rename.
pub struct FileItem {
    pub status: String,
    pub path: String,
    pub original_path: Option<String>,
}

/// Which source answers every fetch of a session.
#[derive(Clone, Copy, Debug, PartialEq, Eq, Structural)]
pub enum ViewMode {
    Stack,
    Queue,
}

/// What a `CommitItem` holds, as plain text.
pub struct CommitRecord {
    pub id: Seq<char>,
    pub summary: Seq<char>,
}

/// What a `FileItem` holds, as plain text.
pub struct FileRecord {
    pub status: Seq<char>,
    pub path: Seq<char>,
    pub original_path: Option<Seq<char>>,
}

impl View for CommitItem {
    type V = CommitRecord;

    open spec fn view(&self) -> CommitRecord {
        CommitRecord { id: self.id@, summary: self.summary@ }
    }
}

impl View for FileItem {
    type V = FileRecord;

    open spec fn view(&self) -> FileRecord {
        FileRecord {
            status: self.status@,
            path: self.path@,
            original_path: match self.original_path {
                Some(p) => Some(p@),
                None => None,
            },
        }
    }
}

/// The views of a sequence of commits.
pub open spec fn commits_view(items: Seq<CommitItem>) -> Seq<CommitRecord> {
    items.map_values(|c: CommitItem| c@)
}

/// The views of a sequence of files.
pub open spec fn files_view(items: Seq<FileItem>) -> Seq<FileRecord> {
    items.map_values(|f: FileItem| f@)
}

impl CommitItem {
    /// A copy with the same identifier and summary.
    pub fn duplicate(&self) -> (r: CommitItem)
        ensures
            r == *self,
    {
        CommitItem { id: self.id.clone(), summary: self.summary.clone() }
    }
}

impl FileItem {
    /// A copy with the same status and paths.
    pub fn duplicate(&self) -> (r: FileItem)
        ensures
            r == *self,
    {
        let original_path = match &self.original_path {
            Some(p) => Some(p.clone()),
            None => None,
        };
        FileItem { status: self.status.clone(), path: self.path.clone(), original_path }
    }
}

/// The views of a sequence of strings.
pub open spec fn text_view(lines: Seq<String>) -> Seq<Seq<char>> {
    lines.map_values(|s: String| s@)
}

/// A copy of `lines`, string for string.
pub fn copy_lines(lines: &Vec<String>) -> (out: Vec<String>)
    ensures
        out@ == lines@,
{
    let mut out: Vec<String> = Vec::new();
    let mut i: usize = 0;
    while i < lines.len()
        invariant
            i <= lines.len(),
            out@ == lines@.take(i as int),
        decreases lines.len() - i,
    {
        out.push(lines[i].clone());
        i += 1;
        proof {
            assert(out@ =~= lines@.take(i as int));
        }
    }
    proof {
        assert(lines@.take(lines.len() as int) =~= lines@);
    }
    out
}

/// Shortens `list` to its first `limit` items.
pub fn keep_first(list: &mut Vec<CommitItem>, limit: usize)
    ensures
        final(list)@ == old(list)@.take(
            if limit <= old(list)@.len() {
                limit as int
            } else {
                old(list)@.len() as int
            },
        ),
{
    proof {
        assert(list@ =~= old(list)@.take(list@.len() as int));
    }
    while list.len() > limit
        invariant
            list@ == old(list)@.take(list@.len() as int),
            list@.len() <= old(list)@.len(),
            list@.len() >= limit || list@.len() == old(list)@.len(),
        decreases list.len(),
    {
        list.pop();
        proof {
            assert(list@ =~= old(list)@.take(list@.len() as int));
        }
    }
}

/// The view of a prefix is the prefix of the view.
pub proof fn lemma_commits_view_take(items: Seq<CommitItem>, n: int)
    requires
        0 <= n <= items.len(),
    ensures
        commits_view(items.take(n)) == commits_view(items).take(n),
{
    assert(commits_view(items.take(n)) =~= commits_view(items).take(n));
}

} // verus!
