//! Display-width-aware truncation of one line of text.

use vstd::prelude::*;
use unicode_width::UnicodeWidthStr;
use crate::text::{chars_of, string_of_range};

verus! {

/// The number of terminal columns that the character `c` takes when it
/// stands alone.
pub uninterp spec fn column_width(c: char) -> usize;

/// The mark that stands for what was cut off.
pub open spec fn ellipsis() -> char {
    '\u{2026}'
}

/// Calls `UnicodeWidthStr::width` of the `unicode-width` crate on the string
/// made of the single character `c`. The result is a function of the
/// character alone; nothing is claimed of its size.
#[verifier::external_body]
fn char_columns(c: char) -> (w: usize)
    ensures
        w == column_width(c),
{
    UnicodeWidthStr::width(c.to_string().as_str())
}

/// The column widths of the characters of `s`, one by one.
pub open spec fn widths_of(s: Seq<char>) -> Seq<usize> {
    s.map_values(|c: char| column_width(c))
}

/// The sum of the widths `w[from..to]`.
pub open spec fn width_between(w: Seq<usize>, from: int, to: int) -> nat
    decreases to - from,
{
    if from >= to || from < 0 || to > w.len() {
        0
    } else {
        w[from] as nat + width_between(w, from + 1, to)
    }
}

/// The columns taken by `s`, character by character.
pub open spec fn display_width(s: Seq<char>) -> nat {
    width_between(widths_of(s), 0, s.len() as int)
}

/// How many of the widths `w`, counted from index `from`, fit into `room`
/// columns: counting stops at the first width that does not fit.
pub open spec fn kept_from(w: Seq<usize>, from: int, room: nat) -> nat
    decreases w.len() - from,
{
    if from < 0 || from >= w.len() || w[from] > room {
        0
    } else {
        1 + kept_from(w, from + 1, (room - w[from]) as nat)
    }
}

/// The number of leading characters that a line of `width` columns keeps,
/// for characters of the widths `w`.
pub open spec fn kept_len(w: Seq<usize>, width: nat) -> nat {
    kept_from(w, 0, width)
}

/// Whether a line of `width` columns ends in the ellipsis: something was
/// cut, the line is wider than one column, and one column is left after
/// what is kept.
pub open spec fn marks_cut(w: Seq<usize>, width: nat) -> bool {
    &&& kept_len(w, width) < w.len()
    &&& width > 1
    &&& width_between(w, 0, kept_len(w, width) as int) + 1 <= width
}

/// `s`, whose characters have the widths `w`, cut to `width` columns: the
/// longest prefix that fits, followed by the ellipsis where `marks_cut`
/// holds.
pub open spec fn cut_text(s: Seq<char>, w: Seq<usize>, width: nat) -> Seq<char> {
    let kept = s.take(kept_len(w, width) as int);
    if marks_cut(w, width) {
        kept.push(ellipsis())
    } else {
        kept
    }
}

/// `s` cut to `width` columns, each character as wide as `column_width`
/// says.
pub open spec fn truncated(s: Seq<char>, width: nat) -> Seq<char> {
    cut_text(s, widths_of(s), width)
}

/// The widths counted by `kept_from` are within `w`, fit into `room`
/// columns, and the next width, if there is one, does not fit any more.
pub proof fn lemma_kept_from(w: Seq<usize>, from: int, room: nat)
    requires
        0 <= from <= w.len(),
    ensures
        from + kept_from(w, from, room) <= w.len(),
        width_between(w, from, from + kept_from(w, from, room)) <= room,
        from + kept_from(w, from, room) < w.len() ==> width_between(
            w,
            from,
            from + kept_from(w, from, room) + 1,
        ) > room,
    decreases w.len() - from,
{
    if from < w.len() && w[from] <= room {
        let rest = (room - w[from]) as nat;
        lemma_kept_from(w, from + 1, rest);
        let k = kept_from(w, from + 1, rest);
        assert(kept_from(w, from, room) == 1 + k);
        assert(width_between(w, from, from + 1 + k) == w[from] + width_between(
            w,
            from + 1,
            from + 1 + k,
        ));
        if from + 1 + k < w.len() {
            assert(width_between(w, from, from + 1 + k + 1) == w[from] + width_between(
                w,
                from + 1,
                from + 1 + k + 1,
            ));
        }
    } else if from < w.len() {
        assert(width_between(w, from, from + 1) == w[from] + width_between(w, from + 1, from + 1));
    }
}

/// A longer range is at least as wide.
pub proof fn lemma_width_monotone(w: Seq<usize>, from: int, mid: int, to: int)
    requires
        0 <= from <= mid <= to <= w.len(),
    ensures
        width_between(w, from, mid) <= width_between(w, from, to),
    decreases mid - from,
{
    if from < mid {
        lemma_width_monotone(w, from + 1, mid, to);
    }
}

/// Extending a range by one width adds that width.
pub proof fn lemma_width_step(w: Seq<usize>, from: int, to: int)
    requires
        0 <= from <= to < w.len(),
    ensures
        width_between(w, from, to + 1) == width_between(w, from, to) + w[to],
    decreases to - from,
{
    if from < to {
        lemma_width_step(w, from + 1, to);
    } else {
        assert(width_between(w, from + 1, to + 1) == 0);
    }
}

/// A cut line never takes more than `width` columns, the ellipsis counted
/// as one column: what is kept fits, and where the ellipsis is appended
/// one column was left for it. The ellipsis is appended only when
/// something was cut, and a line that fits as a whole is returned as it is.
pub proof fn lemma_truncation_fits(s: Seq<char>, w: Seq<usize>, width: nat)
    requires
        w.len() == s.len(),
    ensures
        kept_len(w, width) <= s.len(),
        width_between(w, 0, kept_len(w, width) as int) <= width,
        marks_cut(w, width) ==> width_between(w, 0, kept_len(w, width) as int) + 1 <= width,
        marks_cut(w, width) ==> kept_len(w, width) < s.len(),
        cut_text(s, w, width).len() == kept_len(w, width) + (if marks_cut(w, width) {
            1nat
        } else {
            0nat
        }),
        cut_text(s, w, width).take(kept_len(w, width) as int) == s.take(kept_len(w, width) as int),
        width_between(w, 0, w.len() as int) <= width ==> cut_text(s, w, width) == s,
{
    lemma_kept_from(w, 0, width);
    let n = kept_len(w, width) as int;
    assert(cut_text(s, w, width).take(n) =~= s.take(n));
    if width_between(w, 0, w.len() as int) <= width {
        if n < w.len() {
            lemma_width_monotone(w, 0, n + 1, w.len() as int);
        }
        assert(s.take(n) =~= s);
    }
}

/// The widths of a prefix are the first widths of the whole.
pub proof fn lemma_width_of_prefix(w: Seq<usize>, from: int, to: int)
    requires
        0 <= from <= to <= w.len(),
    ensures
        width_between(w.take(to), from, to) == width_between(w, from, to),
    decreases to - from,
{
    if from < to {
        lemma_width_of_prefix(w, from + 1, to);
    }
}

/// A truncated line never takes more than `width` columns, the ellipsis
/// counted as one column: the prefix of `s` that is kept is at most
/// `width` columns wide, and at most `width - 1` where the ellipsis
/// follows it. A line that is not wider than `width` is not changed.
pub proof fn lemma_truncated_fits(s: Seq<char>, width: nat)
    ensures
        kept_len(widths_of(s), width) <= s.len(),
        display_width(s.take(kept_len(widths_of(s), width) as int)) <= width,
        marks_cut(widths_of(s), width) ==> display_width(
            s.take(kept_len(widths_of(s), width) as int),
        ) + 1 <= width,
        truncated(s, width) == s.take(kept_len(widths_of(s), width) as int) || (kept_len(
            widths_of(s),
            width,
        ) < s.len() && truncated(s, width) == s.take(kept_len(widths_of(s), width) as int).push(
            ellipsis(),
        )),
        display_width(s) <= width ==> truncated(s, width) == s,
{
    let w = widths_of(s);
    lemma_truncation_fits(s, w, width);
    let n = kept_len(w, width) as int;
    assert(widths_of(s.take(n)) =~= w.take(n));
    lemma_width_of_prefix(w, 0, n);
}

/// Cuts `chars`, whose characters have the widths `widths`, to `width`
/// columns; see `cut_text`.
pub fn cut_to_width(chars: &Vec<char>, widths: &Vec<usize>, width: usize) -> (out: String)
    requires
        widths.len() == chars.len(),
    ensures
        out@ == cut_text(chars@, widths@, width as nat),
{
    let mut current: usize = 0;
    let mut i: usize = 0;
    let mut cut = false;
    while i < chars.len() && !cut
        invariant
            i <= chars.len(),
            widths.len() == chars.len(),
            current <= width,
            current as nat == width_between(widths@, 0, i as int),
            kept_len(widths@, width as nat) == i + (if cut {
                0
            } else {
                kept_from(widths@, i as int, (width - current) as nat)
            }),
        decreases chars.len() - i + (if cut { 0int } else { 1int }),
    {
        let w = widths[i];
        if w > width - current {
            cut = true;
        } else {
            proof {
                lemma_width_step(widths@, 0, i as int);
            }
            current += w;
            i += 1;
        }
    }
    let mut out = string_of_range(chars, 0, i);
    proof {
        assert(chars@.subrange(0, i as int) =~= chars@.take(i as int));
    }
    if i < chars.len() && width > 1 && current < width {
        out.push('\u{2026}');
    }
    out
}

/// Cuts `value` to `width` columns; see `truncated`.
pub fn truncate_to_width(value: &str, width: usize) -> (out: String)
    ensures
        out@ == truncated(value@, width as nat),
{
    let chars = chars_of(value);
    let mut widths: Vec<usize> = Vec::new();
    let mut i: usize = 0;
    while i < chars.len()
        invariant
            i <= chars.len(),
            widths@ == widths_of(chars@.take(i as int)),
        decreases chars.len() - i,
    {
        let w = char_columns(chars[i]);
        proof {
            assert(widths@.push(w) =~= widths_of(chars@.take(i as int + 1)));
        }
        widths.push(w);
        i += 1;
    }
    proof {
        assert(chars@.take(chars.len() as int) =~= chars@);
    }
    cut_to_width(&chars, &widths, width)
}

} // verus!
