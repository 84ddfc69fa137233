//! Character-level helpers: conversion between strings and character
//! vectors, field splitting and line splitting.

use vstd::prelude::*;
use vstd::string::*;
use vstd::std_specs::iter::IteratorSpec;

verus! {

/// `String::push` appends exactly one character to the end of the string.
pub assume_specification[ String::push ](s: &mut String, ch: char)
    ensures
        final(s)@ == old(s)@.push(ch),
;

/// The characters of `s`, in order.
pub fn chars_of(s: &str) -> (out: Vec<char>)
    ensures
        out@ == s@,
{
    broadcast use group_string_axioms;

    let mut it = s.chars();
    let mut out: Vec<char> = Vec::new();
    loop
        invariant
            out@ + it.remaining() == s@,
        ensures
            out@ == s@,
        decreases s@.len() - out@.len(),
    {
        match it.next() {
            Some(c) => {
                proof {
                    assert(out@.push(c) + it.remaining() =~= s@);
                }
                out.push(c);
            },
            None => {
                assert(out@ =~= s@);
                break ;
            },
        }
    }
    out
}

/// The string made of the characters `v[from..to]`.
pub fn string_of_range(v: &Vec<char>, from: usize, to: usize) -> (out: String)
    requires
        from <= to <= v.len(),
    ensures
        out@ == v@.subrange(from as int, to as int),
{
    let mut out = String::new();
    let mut i: usize = from;
    while i < to
        invariant
            from <= i <= to <= v.len(),
            out@ == v@.subrange(from as int, i as int),
        decreases to - i,
    {
        out.push(v[i]);
        i += 1;
        proof {
            assert(out@ =~= v@.subrange(from as int, i as int));
        }
    }
    out
}

/// The string made of all the characters of `v`.
pub fn string_of(v: &Vec<char>) -> (out: String)
    ensures
        out@ == v@,
{
    let out = string_of_range(v, 0, v.len());
    proof {
        assert(v@.subrange(0, v.len() as int) =~= v@);
    }
    out
}

/// `String::pop` removes the last character and returns it, or returns
/// `None` and leaves the string as it is when it is empty.
pub assume_specification[ String::pop ](s: &mut String) -> (r: Option<char>)
    ensures
        old(s)@.len() > 0 ==> r == Some(old(s)@.last()) && final(s)@ == old(s)@.drop_last(),
        old(s)@.len() == 0 ==> r is None && final(s)@ == old(s)@,
;

/// Whether `c` is white space in the sense of `char::is_whitespace`.
pub uninterp spec fn whitespace(c: char) -> bool;

/// Calls `char::is_whitespace`, whose answer depends on the character alone.
#[verifier::external_body]
fn is_space(c: char) -> (b: bool)
    ensures
        b == whitespace(c),
{
    c.is_whitespace()
}

/// For each character of `s`, whether it is white space.
pub open spec fn flags_of(s: Seq<char>) -> Seq<bool> {
    s.map_values(|c: char| whitespace(c))
}

/// Whether every flag is set.
pub open spec fn all_set(flags: Seq<bool>) -> bool {
    forall|i: int| 0 <= i < flags.len() ==> #[trigger] flags[i]
}

/// Whether `s` holds nothing but white space.
pub open spec fn blank(s: Seq<char>) -> bool {
    all_set(flags_of(s))
}

/// The index of the first flag at or after `from` that is not set, or the
/// number of flags when all of them are set.
pub open spec fn first_unset(flags: Seq<bool>, from: int) -> int
    decreases flags.len() - from,
{
    if from < 0 || from >= flags.len() || !flags[from] {
        from
    } else {
        first_unset(flags, from + 1)
    }
}

/// The index behind the last flag before `to` that is not set, or `low`
/// when all flags from `low` on are set.
pub open spec fn last_unset_end(flags: Seq<bool>, low: int, to: int) -> int
    decreases to - low,
{
    if to <= low || to > flags.len() || !flags[to - 1] {
        to
    } else {
        last_unset_end(flags, low, to - 1)
    }
}

/// The range that is left when the set flags at both ends are taken away.
pub open spec fn trim_range(flags: Seq<bool>) -> (int, int) {
    let low = first_unset(flags, 0);
    (low, last_unset_end(flags, low, flags.len() as int))
}

/// `s` without its leading and trailing white space.
pub open spec fn trimmed(s: Seq<char>) -> Seq<char> {
    s.subrange(trim_range(flags_of(s)).0, trim_range(flags_of(s)).1)
}

/// For each character of `v`, whether it is white space.
pub fn space_flags(v: &Vec<char>) -> (flags: Vec<bool>)
    ensures
        flags@ == flags_of(v@),
{
    let mut flags: Vec<bool> = Vec::new();
    let mut i: usize = 0;
    while i < v.len()
        invariant
            i <= v.len(),
            flags@ == flags_of(v@.take(i as int)),
        decreases v.len() - i,
    {
        let f = is_space(v[i]);
        proof {
            assert(flags@.push(f) =~= flags_of(v@.take(i as int + 1)));
        }
        flags.push(f);
        i += 1;
    }
    proof {
        assert(v@.take(v.len() as int) =~= v@);
    }
    flags
}

/// Whether every flag is set.
pub fn all_flags_set(flags: &Vec<bool>) -> (b: bool)
    ensures
        b == all_set(flags@),
{
    let mut i: usize = 0;
    while i < flags.len()
        invariant
            i <= flags.len(),
            forall|j: int| 0 <= j < i ==> #[trigger] flags@[j],
        decreases flags.len() - i,
    {
        if !flags[i] {
            return false;
        }
        i += 1;
    }
    true
}

/// The range that is left when the set flags at both ends are taken away.
pub fn trim_flags(flags: &Vec<bool>) -> (r: (usize, usize))
    ensures
        r.0 <= r.1 <= flags.len(),
        (r.0 as int, r.1 as int) == trim_range(flags@),
{
    let mut lo: usize = 0;
    while lo < flags.len() && flags[lo]
        invariant
            lo <= flags.len(),
            first_unset(flags@, 0) == first_unset(flags@, lo as int),
        decreases flags.len() - lo,
    {
        lo += 1;
    }
    let mut hi: usize = flags.len();
    while lo < hi && flags[hi - 1]
        invariant
            lo <= hi <= flags.len(),
            last_unset_end(flags@, lo as int, flags.len() as int) == last_unset_end(
                flags@,
                lo as int,
                hi as int,
            ),
        decreases hi - lo,
    {
        hi -= 1;
    }
    (lo, hi)
}

/// Whether `s` holds nothing but white space.
pub fn is_blank(s: &str) -> (b: bool)
    ensures
        b == blank(s@),
{
    let v = chars_of(s);
    let flags = space_flags(&v);
    all_flags_set(&flags)
}

/// The bounds of `v` without its leading and trailing white space.
pub fn trim_chars(v: &Vec<char>) -> (r: (usize, usize))
    ensures
        r.0 <= r.1 <= v.len(),
        v@.subrange(r.0 as int, r.1 as int) == trimmed(v@),
{
    let flags = space_flags(v);
    trim_flags(&flags)
}

/// `s` without its leading and trailing white space.
pub fn trim_text(s: &str) -> (out: String)
    ensures
        out@ == trimmed(s@),
{
    let v = chars_of(s);
    let (lo, hi) = trim_chars(&v);
    string_of_range(&v, lo, hi)
}

/// The characters `v[from..to]`.
pub fn slice_of(v: &Vec<char>, from: usize, to: usize) -> (out: Vec<char>)
    requires
        from <= to <= v.len(),
    ensures
        out@ == v@.subrange(from as int, to as int),
{
    let mut out: Vec<char> = Vec::new();
    let mut i: usize = from;
    while i < to
        invariant
            from <= i <= to <= v.len(),
            out@ == v@.subrange(from as int, i as int),
        decreases to - i,
    {
        out.push(v[i]);
        i += 1;
        proof {
            assert(out@ =~= v@.subrange(from as int, i as int));
        }
    }
    out
}

/// The fields of `s` between occurrences of `sep`: one more than the number
/// of separators, in order, each without the separators around it.
pub open spec fn split_on(s: Seq<char>, sep: char) -> Seq<Seq<char>>
    decreases s.len(),
{
    if s.len() == 0 {
        seq![Seq::<char>::empty()]
    } else {
        let before = split_on(s.drop_last(), sep);
        if s.last() == sep {
            before.push(Seq::<char>::empty())
        } else {
            before.drop_last().push(before.last().push(s.last()))
        }
    }
}

/// The views of a sequence of character vectors.
pub open spec fn rows_view(rows: Seq<Vec<char>>) -> Seq<Seq<char>> {
    rows.map_values(|r: Vec<char>| r@)
}

/// The fields of `v[from..to]` between occurrences of `sep`.
pub fn split_fields(v: &Vec<char>, from: usize, to: usize, sep: char) -> (out: Vec<Vec<char>>)
    requires
        from <= to <= v.len(),
    ensures
        rows_view(out@) == split_on(v@.subrange(from as int, to as int), sep),
        out@.len() >= 1,
{
    let mut done: Vec<Vec<char>> = Vec::new();
    let mut field: Vec<char> = Vec::new();
    let mut i: usize = from;
    proof {
        assert(v@.subrange(from as int, from as int) =~= Seq::<char>::empty());
        assert(rows_view(done@).push(field@) =~= seq![Seq::<char>::empty()]);
    }
    while i < to
        invariant
            from <= i <= to <= v.len(),
            rows_view(done@).push(field@) == split_on(v@.subrange(from as int, i as int), sep),
        decreases to - i,
    {
        let c = v[i];
        proof {
            let next = v@.subrange(from as int, i as int + 1);
            assert(next.drop_last() =~= v@.subrange(from as int, i as int));
            assert(next.last() == c);
            let before = rows_view(done@).push(field@);
            assert(before.last() == field@);
            assert(before.drop_last() =~= rows_view(done@));
            if c == sep {
                assert(rows_view(done@.push(field)).push(Seq::<char>::empty()) =~= before.push(
                    Seq::<char>::empty(),
                ));
            }
        }
        if c == sep {
            done.push(field);
            field = Vec::new();
        } else {
            field.push(c);
        }
        i += 1;
    }
    proof {
        assert(rows_view(done@.push(field)) =~= rows_view(done@).push(field@));
    }
    done.push(field);
    done
}

/// The index of the first line feed of `s` at or after `from`, or the
/// length of `s` when there is none.
pub open spec fn line_end(s: Seq<char>, from: int) -> int
    decreases s.len() - from,
{
    if from < 0 || from >= s.len() || s[from] == '\n' {
        from
    } else {
        line_end(s, from + 1)
    }
}

/// The line `s[from..end]`, where `end` is `line_end(s, from)`: a line that
/// a line feed ends loses one carriage return before it.
pub open spec fn line_at(s: Seq<char>, from: int, end: int) -> Seq<char> {
    if end < s.len() && from < end && s[end - 1] == '\r' {
        s.subrange(from, end - 1)
    } else {
        s.subrange(from, end)
    }
}

/// The lines of `s` from index `from` on. Each line feed ends a line; what
/// follows the last line feed is a line only if it is not empty.
pub open spec fn lines_from(s: Seq<char>, from: int) -> Seq<Seq<char>>
    decreases s.len() - from,
{
    let end = line_end(s, from);
    if from < 0 || from >= s.len() || end < from {
        Seq::<Seq<char>>::empty()
    } else if end >= s.len() {
        seq![line_at(s, from, end)]
    } else {
        seq![line_at(s, from, end)] + lines_from(s, end + 1)
    }
}

/// The lines of `s`.
pub open spec fn text_lines(s: Seq<char>) -> Seq<Seq<char>> {
    lines_from(s, 0)
}

/// The first line of `s`, or `fallback` when `s` has no line.
pub open spec fn first_line_or(s: Seq<char>, fallback: Seq<char>) -> Seq<char> {
    if text_lines(s).len() > 0 {
        text_lines(s)[0]
    } else {
        fallback
    }
}

/// The end of the line that starts at `from` (without its carriage return)
/// and the index at which the next line starts.
pub fn next_line(v: &Vec<char>, from: usize) -> (r: (usize, usize))
    requires
        from < v.len(),
    ensures
        from <= r.0 <= v.len(),
        from < r.1 <= v.len(),
        r.1 == line_end(v@, from as int) + 1 || r.1 == line_end(v@, from as int) == v.len(),
        r.0 <= line_end(v@, from as int),
        v@.subrange(from as int, r.0 as int) == line_at(v@, from as int, line_end(v@, from as int)),
        lines_from(v@, from as int) == seq![v@.subrange(from as int, r.0 as int)] + lines_from(
            v@,
            r.1 as int,
        ),
{
    let mut end: usize = from;
    while end < v.len() && v[end] != '\n'
        invariant
            from <= end <= v.len(),
            line_end(v@, from as int) == line_end(v@, end as int),
        decreases v.len() - end,
    {
        end += 1;
    }
    let stop: usize = if end < v.len() && from < end && v[end - 1] == '\r' {
        end - 1
    } else {
        end
    };
    let next: usize = if end < v.len() {
        end + 1
    } else {
        end
    };
    proof {
        assert(lines_from(v@, v.len() as int) =~= Seq::<Seq<char>>::empty());
        assert(seq![v@.subrange(from as int, stop as int)] + Seq::<Seq<char>>::empty() =~= seq![
            v@.subrange(from as int, stop as int),
        ]);
    }
    (stop, next)
}

} // verus!
