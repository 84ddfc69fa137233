//! The approval queue: its entries, their order and the commits shown for
//! them.

use vstd::prelude::*;
use vstd::string::*;
use crate::model::{commits_view, CommitItem, CommitRecord};
use crate::parse::split_lines;
use crate::text::{chars_of, first_line_or};

verus! {

/// One entry of the approval queue.
pub struct QueueEntry {
    pub created_at: String,
    pub commit_sha: String,
    pub message: String,
    pub review_bookmark: Option<String>,
}

impl QueueEntry {
    /// A copy with the same fields.
    pub fn duplicate(&self) -> (r: QueueEntry)
        ensures
            r == *self,
    {
        let review_bookmark = match &self.review_bookmark {
            Some(b) => Some(b.clone()),
            None => None,
        };
        QueueEntry {
            created_at: self.created_at.clone(),
            commit_sha: self.commit_sha.clone(),
            message: self.message.clone(),
            review_bookmark,
        }
    }

    /// The commit shown for this entry.
    pub open spec fn shown(&self) -> CommitRecord {
        CommitRecord {
            id: self.commit_sha@,
            summary: summary_text(
                self.message@,
                match self.review_bookmark {
                    Some(b) => Some(b@),
                    None => None,
                },
            ),
        }
    }
}

/// Whether `a` comes before `b`, or equals it, in the order of strings:
/// character by character by code point, a prefix before what extends it.
pub open spec fn text_le(a: Seq<char>, b: Seq<char>) -> bool
    decreases a.len(),
{
    if a.len() == 0 {
        true
    } else if b.len() == 0 {
        false
    } else if a[0] != b[0] {
        a[0] < b[0]
    } else {
        text_le(a.drop_first(), b.drop_first())
    }
}

/// Whether `a` comes before `b`, or equals it, in the order of strings.
pub fn text_before_or_equal(a: &Vec<char>, b: &Vec<char>) -> (r: bool)
    ensures
        r == text_le(a@, b@),
{
    let mut i: usize = 0;
    proof {
        assert(a@.skip(0) =~= a@);
        assert(b@.skip(0) =~= b@);
    }
    while i < a.len() && i < b.len()
        invariant
            i <= a.len(),
            i <= b.len(),
            text_le(a@, b@) == text_le(a@.skip(i as int), b@.skip(i as int)),
        decreases a.len() - i,
    {
        proof {
            assert(a@.skip(i as int).drop_first() =~= a@.skip(i as int + 1));
            assert(b@.skip(i as int).drop_first() =~= b@.skip(i as int + 1));
        }
        if a[i] != b[i] {
            return a[i] < b[i];
        }
        i += 1;
    }
    i == a.len()
}

/// `sorted` with `e` put behind the last entry that was not created after
/// it.
pub open spec fn inserted(sorted: Seq<QueueEntry>, e: QueueEntry) -> Seq<QueueEntry>
    decreases sorted.len(),
{
    if sorted.len() == 0 {
        seq![e]
    } else if text_le(sorted.last().created_at@, e.created_at@) {
        sorted.push(e)
    } else {
        inserted(sorted.drop_last(), e).push(sorted.last())
    }
}

/// `entries` in the order of their creation times, entries of one time in
/// the order in which they came.
pub open spec fn by_creation(entries: Seq<QueueEntry>) -> Seq<QueueEntry>
    decreases entries.len(),
{
    if entries.len() == 0 {
        Seq::<QueueEntry>::empty()
    } else {
        inserted(by_creation(entries.drop_last()), entries.last())
    }
}

/// Orders the entries by creation time, ascending.
pub fn sort_by_creation(entries: &Vec<QueueEntry>) -> (out: Vec<QueueEntry>)
    ensures
        out@ == by_creation(entries@),
{
    let mut out: Vec<QueueEntry> = Vec::new();
    let mut i: usize = 0;
    proof {
        assert(entries@.take(0) =~= Seq::<QueueEntry>::empty());
    }
    while i < entries.len()
        invariant
            i <= entries.len(),
            out@ == by_creation(entries@.take(i as int)),
        decreases entries.len() - i,
    {
        let e = entries[i].duplicate();
        let key = chars_of(e.created_at.as_str());
        let mut pos: usize = out.len();
        proof {
            assert(out@.take(pos as int) =~= out@);
            assert(inserted(out@.take(pos as int), e) + out@.skip(pos as int) =~= inserted(out@, e));
        }
        while pos > 0 && !text_before_or_equal(&chars_of(out[pos - 1].created_at.as_str()), &key)
            invariant
                pos <= out.len(),
                key@ == e.created_at@,
                inserted(out@, e) == inserted(out@.take(pos as int), e) + out@.skip(pos as int),
            decreases pos,
        {
            proof {
                let head = out@.take(pos as int);
                assert(head.last() == out@[pos - 1]);
                assert(head.drop_last() =~= out@.take(pos - 1));
                assert(inserted(head.drop_last(), e).push(head.last()) + out@.skip(pos as int)
                    =~= inserted(head.drop_last(), e) + out@.skip(pos - 1));
            }
            pos -= 1;
        }
        proof {
            let head = out@.take(pos as int);
            if pos > 0 {
                assert(head.last() == out@[pos - 1]);
            }
            assert(inserted(head, e) == head.push(e));
            assert(head.push(e) + out@.skip(pos as int) =~= out@.insert(pos as int, e));
            assert(entries@.take(i as int + 1).drop_last() =~= entries@.take(i as int));
        }
        out.insert(pos, e);
        i += 1;
    }
    proof {
        assert(entries@.take(entries.len() as int) =~= entries@);
    }
    out
}

/// The summary shown for a queue entry: the first line of its message, or
/// `(no message)` when that is empty, followed by the review marker in
/// square brackets when there is one.
pub open spec fn summary_text(message: Seq<char>, review: Option<Seq<char>>) -> Seq<char> {
    let first = first_line_or(message, Seq::<char>::empty());
    let base = if first.len() == 0 {
        "(no message)"@
    } else {
        first
    };
    match review {
        Some(mark) => base + "  ["@ + mark + "]"@,
        None => base,
    }
}

/// The summary shown for a queue entry.
pub fn queue_summary(message: &str, review: Option<&str>) -> (out: String)
    ensures
        out@ == summary_text(
            message@,
            match review {
                Some(mark) => Some(mark@),
                None => None,
            },
        ),
{
    let lines = split_lines(message);
    let mut out = String::new();
    if lines.len() > 0 {
        proof {
            assert(crate::model::text_view(lines@)[0] == lines@[0]@);
            assert(Seq::<char>::empty() + lines@[0]@ =~= lines@[0]@);
        }
        out.append(lines[0].as_str());
    }
    let empty = out.as_str().unicode_len() == 0;
    if empty {
        out = String::from_str("(no message)");
    }
    match review {
        Some(mark) => {
            out.append("  [");
            out.append(mark);
            out.append("]");
        },
        None => {},
    }
    out
}

/// The commits shown for the queue: the entries in the order of their
/// creation times, the first `limit` of them, each with its summary.
pub fn load_queue_commits(entries: &Vec<QueueEntry>, limit: usize) -> (commits: Vec<CommitItem>)
    ensures
        commits@.len() == if limit <= entries@.len() {
            limit as int
        } else {
            entries@.len() as int
        },
        forall|i: int|
            0 <= i < commits@.len() ==> i < by_creation(entries@).len() && (#[trigger] commits@[i])@
                == by_creation(entries@)[i].shown(),
{
    let sorted = sort_by_creation(entries);
    proof {
        lemma_by_creation(entries@);
    }
    let mut commits: Vec<CommitItem> = Vec::new();
    let mut i: usize = 0;
    while i < sorted.len() && i < limit
        invariant
            i <= sorted.len(),
            i <= limit,
            sorted@ == by_creation(entries@),
            commits@.len() == i,
            forall|j: int| 0 <= j < i ==> (#[trigger] commits@[j])@ == sorted@[j].shown(),
        decreases sorted.len() - i,
    {
        let entry = &sorted[i];
        let review: Option<&str> = match &entry.review_bookmark {
            Some(mark) => Some(mark.as_str()),
            None => None,
        };
        let summary = queue_summary(entry.message.as_str(), review);
        commits.push(CommitItem { id: entry.commit_sha.clone(), summary });
        i += 1;
    }
    commits
}

/// Of two strings, one is not after the other.
pub proof fn lemma_text_le_total(a: Seq<char>, b: Seq<char>)
    ensures
        text_le(a, b) || text_le(b, a),
    decreases a.len(),
{
    if a.len() > 0 && b.len() > 0 {
        if a[0] == b[0] {
            lemma_text_le_total(a.drop_first(), b.drop_first());
        }
    }
}

/// The order of strings is transitive.
pub proof fn lemma_text_le_transitive(a: Seq<char>, b: Seq<char>, c: Seq<char>)
    requires
        text_le(a, b),
        text_le(b, c),
    ensures
        text_le(a, c),
    decreases a.len(),
{
    if a.len() > 0 && b.len() > 0 && c.len() > 0 && a[0] == b[0] && b[0] == c[0] {
        lemma_text_le_transitive(a.drop_first(), b.drop_first(), c.drop_first());
    }
}

/// No entry of `entries` was created after the entry that follows it.
pub open spec fn ordered(entries: Seq<QueueEntry>) -> bool {
    forall|i: int|
        0 <= i < entries.len() - 1 ==> text_le(
            (#[trigger] entries[i]).created_at@,
            entries[i + 1].created_at@,
        )
}

/// Putting an entry into an ordered sequence keeps it ordered and adds
/// that entry and no other.
pub proof fn lemma_inserted(sorted: Seq<QueueEntry>, e: QueueEntry)
    requires
        ordered(sorted),
    ensures
        ordered(inserted(sorted, e)),
        inserted(sorted, e).to_multiset() == sorted.to_multiset().insert(e),
        inserted(sorted, e).len() == sorted.len() + 1,
        inserted(sorted, e).last() == e || (sorted.len() > 0 && inserted(sorted, e).last()
            == sorted.last()),
    decreases sorted.len(),
{
    broadcast use vstd::seq_lib::to_multiset_build;

    if sorted.len() == 0 {
        assert(sorted =~= Seq::<QueueEntry>::empty());
        assert(seq![e] =~= sorted.push(e));
    } else if text_le(sorted.last().created_at@, e.created_at@) {
        let out = sorted.push(e);
        assert forall|i: int| 0 <= i < out.len() - 1 implies text_le(
            (#[trigger] out[i]).created_at@,
            out[i + 1].created_at@,
        ) by {
            if i < sorted.len() - 1 {
                assert(text_le(sorted[i].created_at@, sorted[i + 1].created_at@));
            }
        }
    } else {
        let rest = sorted.drop_last();
        let last = sorted.last();
        assert forall|i: int| 0 <= i < rest.len() - 1 implies text_le(
            (#[trigger] rest[i]).created_at@,
            rest[i + 1].created_at@,
        ) by {
            assert(text_le(sorted[i].created_at@, sorted[i + 1].created_at@));
        }
        lemma_inserted(rest, e);
        let inner = inserted(rest, e);
        let out = inner.push(last);
        lemma_text_le_total(last.created_at@, e.created_at@);
        if rest.len() > 0 {
            assert(text_le(sorted[rest.len() - 1].created_at@, sorted[rest.len() as int].created_at@));
        }
        assert forall|i: int| 0 <= i < out.len() - 1 implies text_le(
            (#[trigger] out[i]).created_at@,
            out[i + 1].created_at@,
        ) by {
            if i < inner.len() - 1 {
                assert(text_le(inner[i].created_at@, inner[i + 1].created_at@));
            }
        }
        assert(sorted =~= rest.push(last));
        assert(out.to_multiset() =~= sorted.to_multiset().insert(e));
    }
}

/// The entries in the order of their creation times are the given entries,
/// each as often as it was given, and none of them was created after the
/// one that follows it.
pub proof fn lemma_by_creation(entries: Seq<QueueEntry>)
    ensures
        ordered(by_creation(entries)),
        by_creation(entries).to_multiset() == entries.to_multiset(),
        by_creation(entries).len() == entries.len(),
    decreases entries.len(),
{
    broadcast use vstd::seq_lib::to_multiset_build;

    if entries.len() > 0 {
        lemma_by_creation(entries.drop_last());
        lemma_inserted(by_creation(entries.drop_last()), entries.last());
        assert(entries =~= entries.drop_last().push(entries.last()));
    } else {
        assert(entries =~= Seq::<QueueEntry>::empty());
    }
}

} // verus!
