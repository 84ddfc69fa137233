//! The session state: the loaded commits, the selection cursors, the scroll
//! offset, the two caches and the command-entry buffer, with the navigation
//! and cache operations on them.

use vstd::prelude::*;
use vstd::hash_map::StringHashMap;
use vstd::string::*;
use crate::model::{copy_lines, keep_first, CommitItem, FileItem, ViewMode};

verus! {

/// One cached diff: the commit, the file it is restricted to (none for the
/// whole commit) and the text lines.
pub struct DiffEntry {
    pub commit: String,
    pub file: Option<String>,
    pub lines: Vec<String>,
}

/// The key of a diff: a commit identifier and an optional file path.
pub type DiffKey = (Seq<char>, Option<Seq<char>>);

impl DiffEntry {
    /// The key under which this entry is stored.
    pub open spec fn key(&self) -> DiffKey {
        (
            self.commit@,
            match self.file {
                Some(p) => Some(p@),
                None => None,
            },
        )
    }
}

/// The key of the diff of `commit_id`, restricted to `file` if one is given.
pub open spec fn diff_key(commit_id: Seq<char>, file: Option<&FileItem>) -> DiffKey {
    (
        commit_id,
        match file {
            Some(f) => Some(f.path@),
            None => None,
        },
    )
}

/// The lines stored for `key` in `entries`, if any; the latest entry wins.
pub open spec fn diff_lookup(entries: Seq<DiffEntry>, key: DiffKey) -> Option<Seq<String>>
    decreases entries.len(),
{
    if entries.len() == 0 {
        None
    } else if entries.last().key() == key {
        Some(entries.last().lines@)
    } else {
        diff_lookup(entries.drop_last(), key)
    }
}

/// No two entries have the same key.
pub open spec fn distinct_keys(entries: Seq<DiffEntry>) -> bool {
    forall|i: int, j: int|
        0 <= i < j < entries.len() ==> (#[trigger] entries[i]).key() != (#[trigger] entries[j]).key()
}

/// A key that no lookup finds is the key of no entry.
pub proof fn lemma_missing_diff(entries: Seq<DiffEntry>, key: DiffKey)
    requires
        diff_lookup(entries, key) is None,
    ensures
        forall|i: int| 0 <= i < entries.len() ==> (#[trigger] entries[i]).key() != key,
    decreases entries.len(),
{
    if entries.len() > 0 {
        lemma_missing_diff(entries.drop_last(), key);
        assert forall|i: int| 0 <= i < entries.len() implies (#[trigger] entries[i]).key()
            != key by {
            if i < entries.len() - 1 {
                assert(entries.drop_last()[i] == entries[i]);
            }
        }
    }
}

/// `value`, held within `[low, high]`.
pub open spec fn clamp_int(value: int, low: int, high: int) -> int {
    if value < low {
        low
    } else if value > high {
        high
    } else {
        value
    }
}

/// The index reached from `index` by `delta` steps in a list of `len`
/// items, saturating at both ends.
pub fn clamped_step(index: usize, delta: isize, len: usize) -> (next: usize)
    requires
        len > 0,
    ensures
        next as int == clamp_int(index as int + delta as int, 0, len as int - 1),
{
    let last: usize = len - 1;
    if delta >= 0 {
        let d: usize = delta as usize;
        if index >= last {
            last
        } else if d >= last - index {
            last
        } else {
            index + d
        }
    } else {
        let d: usize = (-(delta + 1)) as usize + 1;
        let t: usize = if d > index {
            0
        } else {
            index - d
        };
        if t > last {
            last
        } else {
            t
        }
    }
}

/// `offset + delta`, held within the range of `usize`.
pub fn shifted_offset(offset: usize, delta: isize) -> (next: usize)
    ensures
        next as int == clamp_int(offset as int + delta as int, 0, usize::MAX as int),
{
    if delta >= 0 {
        let d: usize = delta as usize;
        if d > usize::MAX - offset {
            usize::MAX
        } else {
            offset + d
        }
    } else {
        let d: usize = (-(delta + 1)) as usize + 1;
        if d > offset {
            0
        } else {
            offset - d
        }
    }
}

/// The single mutable structure of a session.
pub struct AppState {
    pub repo: String,
    pub base_revset: String,
    pub mode: ViewMode,
    pub commits: Vec<CommitItem>,
    pub commit_index: usize,
    pub file_index: usize,
    pub diff_scroll: usize,
    pub files_cache: StringHashMap<Vec<FileItem>>,
    pub diff_cache: Vec<DiffEntry>,
    pub status: String,
    pub input_mode: bool,
    pub input_buffer: String,
}

impl AppState {
    /// The cached file list of the selected commit, if there is a selection
    /// and its list is cached.
    pub open spec fn selected_files(&self) -> Option<Vec<FileItem>> {
        if self.commit_index < self.commits.len() && self.files_cache@.contains_key(
            self.commits[self.commit_index as int].id@,
        ) {
            Some(self.files_cache@[self.commits[self.commit_index as int].id@])
        } else {
            None
        }
    }

    /// The cursors are in range and no diff is cached twice: the commit
    /// cursor points into the commit list (or is 0 when the list is empty),
    /// the file cursor is 0 or points into the cached file list of the
    /// selected commit, and the cached diffs have distinct keys.
    pub open spec fn wf(&self) -> bool {
        &&& self.commits.len() == 0 ==> self.commit_index == 0
        &&& self.commits.len() > 0 ==> self.commit_index < self.commits.len()
        &&& self.file_index == 0 || (self.selected_files() is Some && self.file_index
            < self.selected_files()->0.len())
        &&& distinct_keys(self.diff_cache@)
    }

    /// The cached diff lines for `key`, if any.
    pub open spec fn cached_diff(&self, key: DiffKey) -> Option<Seq<String>> {
        diff_lookup(self.diff_cache@, key)
    }

    /// Everything but the cursors, the caches and the status is the same in
    /// `self` and `other`.
    pub open spec fn same_session(&self, other: &AppState) -> bool {
        &&& self.repo == other.repo
        &&& self.base_revset == other.base_revset
        &&& self.mode == other.mode
        &&& self.input_mode == other.input_mode
        &&& self.input_buffer == other.input_buffer
    }

    /// The state after the commit cursor has moved by `delta`: the cursor
    /// saturates at the ends of the list, and the file cursor and the scroll
    /// offset return to 0 exactly when the commit cursor changes.
    pub open spec fn moved_commit(&self, delta: int) -> AppState {
        if self.commits.len() == 0 {
            *self
        } else {
            let next = clamp_int(self.commit_index + delta, 0, self.commits.len() - 1) as usize;
            if next == self.commit_index {
                *self
            } else {
                AppState { commit_index: next, file_index: 0, diff_scroll: 0, ..*self }
            }
        }
    }

    /// The state after the file cursor has moved by `delta`: the cursor
    /// saturates at the ends of the selected commit's cached file list, and
    /// the scroll offset returns to 0 exactly when the cursor changes.
    pub open spec fn moved_file(&self, delta: int) -> AppState {
        match self.selected_files() {
            Some(files) => {
                if files.len() == 0 {
                    *self
                } else {
                    let next = clamp_int(self.file_index + delta, 0, files.len() - 1) as usize;
                    if next == self.file_index {
                        *self
                    } else {
                        AppState { file_index: next, diff_scroll: 0, ..*self }
                    }
                }
            },
            None => *self,
        }
    }

    /// The state after a jump to the first file.
    pub open spec fn at_file_top(&self) -> AppState {
        AppState { file_index: 0, diff_scroll: 0, ..*self }
    }

    /// The state after a jump to the last file of the selected commit's
    /// cached list; the same state without a cached, non-empty list.
    pub open spec fn at_file_bottom(&self) -> AppState {
        match self.selected_files() {
            Some(files) => {
                if files.len() == 0 {
                    *self
                } else {
                    AppState { file_index: (files.len() - 1) as usize, diff_scroll: 0, ..*self }
                }
            },
            None => *self,
        }
    }

    /// The state after the scroll offset has moved by `delta`, never below 0.
    pub open spec fn scrolled(&self, delta: int) -> AppState {
        AppState {
            diff_scroll: clamp_int(self.diff_scroll + delta, 0, usize::MAX as int) as usize,
            ..*self
        }
    }

    /// A fresh session: no commits, all cursors at 0, empty caches, empty
    /// status, normal mode with an empty buffer.
    pub fn new(repo: String, base_revset: String, mode: ViewMode) -> (s: AppState)
        ensures
            s.wf(),
            s.repo == repo,
            s.base_revset == base_revset,
            s.mode == mode,
            s.commits@.len() == 0,
            s.commit_index == 0,
            s.file_index == 0,
            s.diff_scroll == 0,
            s.files_cache@ == Map::<Seq<char>, Vec<FileItem>>::empty(),
            s.diff_cache@.len() == 0,
            s.status@.len() == 0,
            !s.input_mode,
            s.input_buffer@.len() == 0,
    {
        AppState {
            repo,
            base_revset,
            mode,
            commits: Vec::new(),
            commit_index: 0,
            file_index: 0,
            diff_scroll: 0,
            files_cache: StringHashMap::new(),
            diff_cache: Vec::new(),
            status: String::new(),
            input_mode: false,
            input_buffer: String::new(),
        }
    }

    /// The status text that follows a refresh.
    pub open spec fn refresh_status(&self) -> Seq<char> {
        match self.mode {
            ViewMode::Stack => "stack base: "@ + self.base_revset@,
            ViewMode::Queue => "queue: flow commit-queue"@,
        }
    }

    /// Replaces the commit list by the first `limit` fetched commits, resets
    /// the three cursors, empties both caches and sets the status. When the
    /// fetch failed, the error is handed back and nothing changes.
    pub fn refresh(&mut self, fetched: Result<Vec<CommitItem>, String>, limit: usize) -> (r: Result<
        (),
        String,
    >)
        ensures
            match fetched {
                Ok(list) => {
                    &&& r is Ok
                    &&& final(self).wf()
                    &&& final(self).same_session(old(self))
                    &&& final(self).commits@ == list@.take(
                        if limit <= list@.len() {
                            limit as int
                        } else {
                            list@.len() as int
                        },
                    )
                    &&& final(self).commit_index == 0
                    &&& final(self).file_index == 0
                    &&& final(self).diff_scroll == 0
                    &&& final(self).files_cache@ == Map::<Seq<char>, Vec<FileItem>>::empty()
                    &&& final(self).diff_cache@.len() == 0
                    &&& final(self).status@ == old(self).refresh_status()
                },
                Err(e) => r == Err::<(), String>(e) && *final(self) == *old(self),
            },
    {
        match fetched {
            Err(e) => Err(e),
            Ok(list) => {
                let mut list = list;
                keep_first(&mut list, limit);
                self.commits = list;
                self.commit_index = 0;
                self.file_index = 0;
                self.diff_scroll = 0;
                self.files_cache.clear();
                self.diff_cache = Vec::new();
                self.status = match self.mode {
                    ViewMode::Stack => {
                        let mut s = String::from_str("stack base: ");
                        s.append(self.base_revset.as_str());
                        s
                    },
                    ViewMode::Queue => String::from_str("queue: flow commit-queue"),
                };
                Ok(())
            },
        }
    }

    /// The selected commit, if the list is not empty.
    pub fn selected_commit(&self) -> (r: Option<&CommitItem>)
        ensures
            self.commit_index < self.commits.len() ==> r == Some(
                &self.commits[self.commit_index as int],
            ),
            self.commit_index >= self.commits.len() ==> r is None,
    {
        if self.commit_index < self.commits.len() {
            Some(&self.commits[self.commit_index])
        } else {
            None
        }
    }

    /// The cached file list of the selected commit.
    pub fn files_for_selected_commit(&self) -> (r: Option<&Vec<FileItem>>)
        ensures
            match r {
                Some(files) => self.selected_files() == Some(*files),
                None => self.selected_files() is None,
            },
    {
        match self.selected_commit() {
            Some(commit) => self.files_cache.get(commit.id.as_str()),
            None => None,
        }
    }

    /// The selected file of the selected commit.
    pub fn selected_file(&self) -> (r: Option<&FileItem>)
        ensures
            match r {
                Some(file) => self.selected_files() is Some && self.file_index
                    < self.selected_files()->0.len() && *file == self.selected_files()->0[self.file_index as int],
                None => self.selected_files() is None || self.file_index
                    >= self.selected_files()->0.len(),
            },
    {
        match self.files_for_selected_commit() {
            Some(files) => {
                if self.file_index < files.len() {
                    Some(&files[self.file_index])
                } else {
                    None
                }
            },
            None => None,
        }
    }

    /// The identifier of the commit whose file list has to be fetched: that
    /// of the selected commit, when its list is not cached.
    pub fn files_request(&self) -> (r: Option<&str>)
        ensures
            match r {
                Some(id) => self.commit_index < self.commits.len() && id@
                    == self.commits[self.commit_index as int].id@ && self.selected_files() is None,
                None => self.commit_index >= self.commits.len() || self.selected_files() is Some,
            },
    {
        match self.selected_commit() {
            Some(commit) => {
                if self.files_cache.contains_key(commit.id.as_str()) {
                    None
                } else {
                    Some(commit.id.as_str())
                }
            },
            None => None,
        }
    }

    /// Stores `fetched` as the file list of the selected commit and puts the
    /// file cursor at 0, when that commit has no cached list yet. Nothing
    /// changes when the list is cached already or when nothing is selected.
    pub fn ensure_files_loaded(&mut self, fetched: Vec<FileItem>)
        requires
            old(self).wf(),
        ensures
            final(self).wf(),
            old(self).commit_index < old(self).commits.len() && old(self).selected_files() is None
                ==> {
                &&& final(self).files_cache@ == old(self).files_cache@.insert(
                    old(self).commits[old(self).commit_index as int].id@,
                    fetched,
                )
                &&& final(self).file_index == 0
                &&& final(self).selected_files() == Some(fetched)
                &&& final(self).same_session(old(self))
                &&& final(self).commits == old(self).commits
                &&& final(self).commit_index == old(self).commit_index
                &&& final(self).diff_scroll == old(self).diff_scroll
                &&& final(self).diff_cache == old(self).diff_cache
                &&& final(self).status == old(self).status
            },
            !(old(self).commit_index < old(self).commits.len() && old(self).selected_files() is None)
                ==> *final(self) == *old(self),
    {
        if self.commit_index < self.commits.len() {
            let id = self.commits[self.commit_index].id.clone();
            if !self.files_cache.contains_key(id.as_str()) {
                self.files_cache.insert(id, fetched);
                self.file_index = 0;
            }
        }
    }

    /// Moves the file cursor by `delta`, saturating at the ends of the
    /// selected commit's cached file list. The scroll offset returns to 0
    /// exactly when the cursor changes; without a cached, non-empty list
    /// nothing changes.
    pub fn move_file_selection(&mut self, delta: isize)
        requires
            old(self).wf(),
        ensures
            final(self).wf(),
            *final(self) == old(self).moved_file(delta as int),
    {
        let len: usize = match self.files_for_selected_commit() {
            Some(files) => files.len(),
            None => 0,
        };
        if len == 0 {
            return ;
        }
        let next = clamped_step(self.file_index, delta, len);
        if next != self.file_index {
            self.file_index = next;
            self.diff_scroll = 0;
        }
    }

    /// Puts the file cursor and the scroll offset at 0.
    pub fn jump_file_top(&mut self)
        requires
            old(self).wf(),
        ensures
            final(self).wf(),
            *final(self) == old(self).at_file_top(),
    {
        self.file_index = 0;
        self.diff_scroll = 0;
    }

    /// Puts the file cursor on the last file of the selected commit's cached
    /// list and the scroll offset at 0; nothing changes without a cached,
    /// non-empty list.
    pub fn jump_file_bottom(&mut self)
        requires
            old(self).wf(),
        ensures
            final(self).wf(),
            *final(self) == old(self).at_file_bottom(),
    {
        let len: usize = match self.files_for_selected_commit() {
            Some(files) => files.len(),
            None => 0,
        };
        if len > 0 {
            self.file_index = len - 1;
            self.diff_scroll = 0;
        }
    }

    /// Moves the commit cursor by `delta`, saturating at the ends of the
    /// commit list. The file cursor and the scroll offset return to 0 exactly
    /// when the cursor changes; with an empty list nothing changes. The
    /// caches are never touched.
    pub fn move_commit(&mut self, delta: isize)
        requires
            old(self).wf(),
        ensures
            final(self).wf(),
            *final(self) == old(self).moved_commit(delta as int),
    {
        if self.commits.len() == 0 {
            return ;
        }
        let next = clamped_step(self.commit_index, delta, self.commits.len());
        if next != self.commit_index {
            self.commit_index = next;
            self.file_index = 0;
            self.diff_scroll = 0;
        }
    }

    /// Moves the scroll offset by `delta`, never below 0.
    pub fn scroll_diff(&mut self, delta: isize)
        requires
            old(self).wf(),
        ensures
            final(self).wf(),
            *final(self) == old(self).scrolled(delta as int),
    {
        self.diff_scroll = shifted_offset(self.diff_scroll, delta);
    }

    /// Whether the diff of `commit_id`, restricted to `file` if one is
    /// given, is cached.
    pub fn diff_is_cached(&self, commit_id: &str, file: Option<&FileItem>) -> (r: bool)
        ensures
            r == self.cached_diff(diff_key(commit_id@, file)) is Some,
    {
        self.find_diff(commit_id, file).is_some()
    }

    /// The position of the entry that answers a lookup of the key.
    fn find_diff(&self, commit_id: &str, file: Option<&FileItem>) -> (r: Option<usize>)
        ensures
            match r {
                Some(i) => i < self.diff_cache.len() && self.cached_diff(
                    diff_key(commit_id@, file),
                ) == Some(self.diff_cache[i as int].lines@),
                None => self.cached_diff(diff_key(commit_id@, file)) is None,
            },
    {
        let ghost key = diff_key(commit_id@, file);
        let id = String::from_str(commit_id);
        let mut i: usize = self.diff_cache.len();
        proof {
            assert(self.diff_cache@.take(i as int) =~= self.diff_cache@);
        }
        while i > 0
            invariant
                i <= self.diff_cache.len(),
                key == diff_key(commit_id@, file),
                id@ == commit_id@,
                diff_lookup(self.diff_cache@, key) == diff_lookup(
                    self.diff_cache@.take(i as int),
                    key,
                ),
            decreases i,
        {
            let entry = &self.diff_cache[i - 1];
            let same_file = match (&entry.file, file) {
                (Some(p), Some(f)) => *p == f.path,
                (None, None) => true,
                _ => false,
            };
            let same_commit = entry.commit == id;
            proof {
                let prefix = self.diff_cache@.take(i as int);
                assert(prefix.last() == self.diff_cache@[i - 1]);
                assert(prefix.drop_last() =~= self.diff_cache@.take(i - 1));
                assert((same_file && same_commit) == (prefix.last().key() == key));
            }
            if same_file && same_commit {
                return Some(i - 1);
            }
            i -= 1;
        }
        proof {
            assert(self.diff_cache@.take(0).len() == 0);
        }
        None
    }

    /// The diff lines of `commit_id`, restricted to `file` if one is given.
    /// A cached diff is returned as it is and nothing changes; otherwise
    /// `fetched` is stored under the key and returned.
    pub fn diff_lines(&mut self, commit_id: &str, file: Option<&FileItem>, fetched: Vec<String>) -> (r:
        Vec<String>)
        ensures
            old(self).wf() ==> final(self).wf(),
            *final(self) == (AppState { diff_cache: final(self).diff_cache, ..*old(self) }),
            final(self).cached_diff(diff_key(commit_id@, file)) == Some(r@),
            forall|other: DiffKey|
                other != diff_key(commit_id@, file) ==> #[trigger] final(self).cached_diff(other)
                    == old(self).cached_diff(other),
            match old(self).cached_diff(diff_key(commit_id@, file)) {
                Some(lines) => r@ == lines && *final(self) == *old(self),
                None => r@ == fetched@,
            },
    {
        match self.find_diff(commit_id, file) {
            Some(i) => copy_lines(&self.diff_cache[i].lines),
            None => {
                let out = copy_lines(&fetched);
                let path = match file {
                    Some(f) => Some(f.path.clone()),
                    None => None,
                };
                let entry = DiffEntry { commit: String::from_str(commit_id), file: path, lines: fetched };
                proof {
                    lemma_stored_diff_is_found(self.diff_cache@, entry);
                    lemma_missing_diff(self.diff_cache@, entry.key());
                    assert(entry.key() == diff_key(commit_id@, file));
                }
                self.diff_cache.push(entry);
                out
            },
        }
    }
}

/// A diff stored under a key is what every later lookup of that key finds,
/// so that a second request for it needs no fetch; the other keys keep what
/// they had.
pub proof fn lemma_stored_diff_is_found(entries: Seq<DiffEntry>, entry: DiffEntry)
    ensures
        diff_lookup(entries.push(entry), entry.key()) == Some(entry.lines@),
        forall|other: DiffKey|
            other != entry.key() ==> #[trigger] diff_lookup(entries.push(entry), other)
                == diff_lookup(entries, other),
{
    assert(entries.push(entry).drop_last() =~= entries);
}

/// After a move the commit cursor still points into a non-empty commit
/// list: a step beyond either end stops at that end and never wraps.
pub proof fn lemma_commit_cursor_in_range(s: AppState, delta: int)
    requires
        s.wf(),
        s.commits.len() > 0,
    ensures
        s.moved_commit(delta).wf(),
        s.moved_commit(delta).commit_index < s.commits.len(),
        s.moved_commit(delta).commits == s.commits,
        s.moved_commit(delta).commit_index as int == clamp_int(
            s.commit_index + delta,
            0,
            s.commits.len() - 1,
        ),
        s.commit_index + delta < 0 ==> s.moved_commit(delta).commit_index == 0,
        s.commit_index + delta >= s.commits.len() ==> s.moved_commit(delta).commit_index
            == s.commits.len() - 1,
{
}

/// The state after the commit cursor has moved by each of `deltas` in turn.
pub open spec fn after_commit_moves(s: AppState, deltas: Seq<int>) -> AppState
    decreases deltas.len(),
{
    if deltas.len() == 0 {
        s
    } else {
        after_commit_moves(s, deltas.drop_last()).moved_commit(deltas.last())
    }
}

/// Whatever moves are made in a non-empty commit list, the commit cursor
/// points into the list afterwards, and the list and the caches are the
/// same.
pub proof fn lemma_commit_cursor_stays_in_range(s: AppState, deltas: Seq<int>)
    requires
        s.wf(),
        s.commits.len() > 0,
    ensures
        after_commit_moves(s, deltas).wf(),
        after_commit_moves(s, deltas).commit_index < s.commits.len(),
        after_commit_moves(s, deltas).commits == s.commits,
        after_commit_moves(s, deltas).files_cache == s.files_cache,
        after_commit_moves(s, deltas).diff_cache == s.diff_cache,
    decreases deltas.len(),
{
    if deltas.len() > 0 {
        lemma_commit_cursor_stays_in_range(s, deltas.drop_last());
        lemma_commit_cursor_in_range(after_commit_moves(s, deltas.drop_last()), deltas.last());
    }
}

/// A move that ends on the index it started from changes nothing: neither
/// the file cursor, nor the scroll offset, nor a cache.
pub proof fn lemma_same_index_changes_nothing(s: AppState, delta: int)
    requires
        s.wf(),
    ensures
        s.moved_commit(delta).commit_index == s.commit_index ==> s.moved_commit(delta) == s,
        s.moved_file(delta).file_index == s.file_index ==> s.moved_file(delta) == s,
        s.moved_commit(delta).files_cache == s.files_cache,
        s.moved_commit(delta).diff_cache == s.diff_cache,
        s.moved_file(delta).files_cache == s.files_cache,
        s.moved_file(delta).diff_cache == s.diff_cache,
{
}

/// A move that changes the selected commit puts the file cursor and the
/// scroll offset at 0; one that changes the selected file puts the scroll
/// offset at 0.
pub proof fn lemma_selection_change_resets(s: AppState, delta: int)
    requires
        s.wf(),
    ensures
        s.moved_commit(delta).commit_index != s.commit_index ==> s.moved_commit(delta).file_index
            == 0 && s.moved_commit(delta).diff_scroll == 0,
        s.moved_file(delta).file_index != s.file_index ==> s.moved_file(delta).diff_scroll == 0,
{
}

} // verus!
