//! Label widths for the menu's mixed ASCII / CJK text.

use vstd::prelude::*;

verus! {

/// Advance width of one character: CJK ideographs, CJK punctuation and
/// full-width forms take 12 pixels, everything else 7.
pub open spec fn char_width(c: char) -> int {
    if ('\u{4E00}' <= c && c <= '\u{9FFF}') || ('\u{3000}' <= c && c <= '\u{303F}') || ('\u{FF00}'
        <= c && c <= '\u{FFEF}') {
        12
    } else {
        7
    }
}

/// Width in pixels of a run of characters: the sum of their advances.
pub open spec fn text_width(s: Seq<char>) -> int
    decreases s.len(),
{
    if s.len() == 0 {
        0
    } else {
        text_width(s.drop_last()) + char_width(s.last())
    }
}

/// `text_width` is at most twelve pixels per character and not negative.
pub proof fn lemma_text_width_bounds(s: Seq<char>)
    ensures
        7 * s.len() <= text_width(s) <= 12 * s.len(),
    decreases s.len(),
{
    if s.len() > 0 {
        lemma_text_width_bounds(s.drop_last());
    }
}

/// A prefix is at most as wide as the whole run.
pub proof fn lemma_text_width_prefix(s: Seq<char>, i: int)
    requires
        0 <= i <= s.len(),
    ensures
        text_width(s.take(i)) <= text_width(s),
    decreases s.len(),
{
    if i < s.len() {
        lemma_text_width_prefix(s.drop_last(), i);
        assert(s.drop_last().take(i) =~= s.take(i));
    } else {
        assert(s.take(i) =~= s);
    }
}

/// Advance width of one character (see `char_width`).
fn char_w(ch: char) -> (w: i32)
    ensures
        w == char_width(ch),
{
    if (ch >= '\u{4E00}' && ch <= '\u{9FFF}') || (ch >= '\u{3000}' && ch <= '\u{303F}') || (ch
        >= '\u{FF00}' && ch <= '\u{FFEF}') {
        12
    } else {
        7
    }
}

/// Width in pixels of `text` as the menu draws it; the width must fit in
/// an `i32`.
pub fn text_w(text: &str) -> (w: i32)
    requires
        text_width(text@) <= i32::MAX,
    ensures
        w == text_width(text@),
{
    let mut w: i32 = 0;
    let ghost s = text@;
    for ch in it: text.chars()
        invariant
            it.seq() == s,
            text_width(s) <= i32::MAX,
            w == text_width(s.take(it.index() as int)),
    {
        proof {
            lemma_text_width_prefix(s, it.index() + 1);
            assert(s.take(it.index() + 1).drop_last() =~= s.take(it.index() as int));
        }
        w += char_w(ch);
    }
    proof {
        assert(s.take(s.len() as int) =~= s);
    }
    w
}

/// Whether `text` is at most `limit` pixels wide.
pub fn text_fits(text: &str, limit: i32) -> (ok: bool)
    requires
        limit >= 0,
    ensures
        ok == (text_width(text@) <= limit),
{
    let mut w: i32 = 0;
    let ghost s = text@;
    for ch in it: text.chars()
        invariant
            it.seq() == s,
            s == text@,
            limit >= 0,
            0 <= w <= limit,
            w == text_width(s.take(it.index() as int)),
    {
        proof {
            lemma_text_width_prefix(s, it.index() + 1);
            assert(s.take(it.index() + 1).drop_last() =~= s.take(it.index() as int));
        }
        let c = char_w(ch);
        assert(text_width(s.take(it.index() + 1)) == w + c);
        if c > limit - w {
            return false;
        }
        w += c;
    }
    proof {
        assert(s.take(s.len() as int) =~= s);
    }
    true
}

} // verus!
