//! Splits a document into an ordered sequence of bounded, overlapping text
//! segments, preferring to cut at sentence boundaries, then at word
//! boundaries, and only then at the hard window edge.

use vstd::prelude::*;

use crate::text::chars_to_string;
use crate::text::str_chars;

verus! {

/// Stateless chunking algorithm.
pub struct TextChunker;

pub const DEFAULT_CHUNK_SIZE: usize = 1000;

pub const DEFAULT_OVERLAP: usize = 200;

/// A character that ends a sentence.
pub open spec fn is_sentence_end(c: char) -> bool {
    c == '.' || c == '!' || c == '?'
}

/// A whitespace character (the Unicode `White_Space` set).
pub open spec fn is_space(c: char) -> bool {
    ||| c == ' '
    ||| c == '\t'
    ||| c == '\n'
    ||| c == '\r'
    ||| c == '\u{b}'
    ||| c == '\u{c}'
    ||| c == '\u{85}'
    ||| c == '\u{a0}'
    ||| c == '\u{1680}'
    ||| c == '\u{2000}'
    ||| c == '\u{2001}'
    ||| c == '\u{2002}'
    ||| c == '\u{2003}'
    ||| c == '\u{2004}'
    ||| c == '\u{2005}'
    ||| c == '\u{2006}'
    ||| c == '\u{2007}'
    ||| c == '\u{2008}'
    ||| c == '\u{2009}'
    ||| c == '\u{200a}'
    ||| c == '\u{2028}'
    ||| c == '\u{2029}'
    ||| c == '\u{202f}'
    ||| c == '\u{205f}'
    ||| c == '\u{3000}'
}

/// Position of the last sentence-ending character in `text[lo..hi]`,
/// if there is one.
pub open spec fn last_sentence_end(text: Seq<char>, lo: int, hi: int) -> Option<int>
    decreases hi - lo,
{
    if lo >= hi {
        None
    } else if is_sentence_end(text[hi - 1]) {
        Some(hi - 1)
    } else {
        last_sentence_end(text, lo, hi - 1)
    }
}

/// Position of the last whitespace character in `text[lo..hi]`,
/// if there is one.
pub open spec fn last_space(text: Seq<char>, lo: int, hi: int) -> Option<int>
    decreases hi - lo,
{
    if lo >= hi {
        None
    } else if is_space(text[hi - 1]) {
        Some(hi - 1)
    } else {
        last_space(text, lo, hi - 1)
    }
}

pub proof fn lemma_last_sentence_end(text: Seq<char>, lo: int, hi: int)
    requires
        0 <= lo,
        hi <= text.len(),
    ensures
        match last_sentence_end(text, lo, hi) {
            Some(p) => lo <= p < hi && is_sentence_end(text[p]) && (forall|j: int|
                p < j < hi ==> !is_sentence_end(text[j])),
            None => forall|j: int| lo <= j < hi ==> !is_sentence_end(text[j]),
        },
    decreases hi - lo,
{
    if lo >= hi {
    } else if is_sentence_end(text[hi - 1]) {
    } else {
        lemma_last_sentence_end(text, lo, hi - 1);
    }
}

pub proof fn lemma_last_space(text: Seq<char>, lo: int, hi: int)
    requires
        0 <= lo,
        hi <= text.len(),
    ensures
        match last_space(text, lo, hi) {
            Some(p) => lo <= p < hi && is_space(text[p]) && (forall|j: int|
                p < j < hi ==> !is_space(text[j])),
            None => forall|j: int| lo <= j < hi ==> !is_space(text[j]),
        },
    decreases hi - lo,
{
    if lo >= hi {
    } else if is_space(text[hi - 1]) {
    } else {
        lemma_last_space(text, lo, hi - 1);
    }
}

/// `text` with leading whitespace removed.
pub open spec fn trim_front(s: Seq<char>) -> Seq<char>
    decreases s.len(),
{
    if s.len() > 0 && is_space(s[0]) {
        trim_front(s.drop_first())
    } else {
        s
    }
}

/// `text` with trailing whitespace removed.
pub open spec fn trim_back(s: Seq<char>) -> Seq<char>
    decreases s.len(),
{
    if s.len() > 0 && is_space(s[s.len() - 1]) {
        trim_back(s.drop_last())
    } else {
        s
    }
}

/// `text` with leading and trailing whitespace removed.
pub open spec fn trim_seq(s: Seq<char>) -> Seq<char> {
    trim_back(trim_front(s))
}

/// A sequence with neither leading nor trailing whitespace.
pub open spec fn is_trimmed(s: Seq<char>) -> bool {
    trim_seq(s) == s
}

proof fn lemma_trim_front_no_lead(s: Seq<char>)
    ensures
        trim_front(s).len() > 0 ==> !is_space(trim_front(s)[0]),
    decreases s.len(),
{
    if s.len() > 0 && is_space(s[0]) {
        lemma_trim_front_no_lead(s.drop_first());
    }
}

proof fn lemma_trim_back_keeps_first(s: Seq<char>)
    ensures
        trim_back(s).len() > 0 ==> s.len() > 0 && trim_back(s)[0] == s[0],
    decreases s.len(),
{
    if s.len() > 0 && is_space(s[s.len() - 1]) {
        lemma_trim_back_keeps_first(s.drop_last());
    }
}

proof fn lemma_trim_back_no_trail(s: Seq<char>)
    ensures
        trim_back(s).len() > 0 ==> !is_space(trim_back(s)[trim_back(s).len() - 1]),
    decreases s.len(),
{
    if s.len() > 0 && is_space(s[s.len() - 1]) {
        lemma_trim_back_no_trail(s.drop_last());
    }
}

/// What trimming returns is itself trimmed.
proof fn lemma_trim_seq_idempotent(s: Seq<char>)
    ensures
        is_trimmed(trim_seq(s)),
{
    let f = trim_front(s);
    let t = trim_back(f);
    if t.len() == 0 {
        assert(trim_front(t) == t);
        assert(trim_back(t) == t);
    } else {
        lemma_trim_front_no_lead(s);
        lemma_trim_back_keeps_first(f);
        lemma_trim_back_no_trail(f);
        assert(!is_space(t[0]));
        assert(trim_front(t) == t);
        assert(trim_back(t) == t);
    }
}

/// The window that starts at `start` ends at `start + chunk_size`, or at the
/// end of the text if that is nearer.  A window that does not reach the end
/// of the text is cut just after its last sentence-ending character (one
/// with content after it inside the window); failing that, at its last
/// whitespace character; failing that, at the window edge itself.
pub open spec fn cut_point(text: Seq<char>, chunk_size: int, start: int) -> int {
    let end = if start + chunk_size < text.len() {
        start + chunk_size
    } else {
        text.len() as int
    };
    if end < text.len() {
        match last_sentence_end(text, start, end - 1) {
            Some(p) => p + 1,
            None => match last_space(text, start, end) {
                Some(w) => w,
                None => end,
            },
        }
    } else {
        end
    }
}

/// Where the next window starts: `overlap` characters before the cut, except
/// that the start always advances by at least one position (the explicit
/// minimum-progress guard).
pub open spec fn next_start(start: int, cut: int, overlap: int) -> int {
    let n = if cut > overlap {
        cut - overlap
    } else {
        cut
    };
    if n > start {
        n
    } else {
        start + 1
    }
}

/// The segments emitted by the windowed path from offset `start` on: each
/// window's cut span, trimmed, with empty results dropped.
pub open spec fn windows_from(text: Seq<char>, chunk_size: int, overlap: int, start: int) -> Seq<
    Seq<char>,
>
    decreases text.len() - start
        when 0 <= start <= text.len() && 0 <= chunk_size && 0 <= overlap
        via windows_from_decreases
{
    if start >= text.len() {
        Seq::empty()
    } else {
        let cut = cut_point(text, chunk_size, start);
        let piece = trim_seq(text.subrange(start, cut));
        let head: Seq<Seq<char>> = if piece.len() > 0 {
            seq![piece]
        } else {
            Seq::empty()
        };
        if cut >= text.len() {
            head
        } else {
            head + windows_from(text, chunk_size, overlap, next_start(start, cut, overlap))
        }
    }
}

#[via_fn]
proof fn windows_from_decreases(text: Seq<char>, chunk_size: int, overlap: int, start: int) {
    if 0 <= start && start < text.len() {
        lemma_cut_point_in_window(text, chunk_size, start);
    }
}

/// What chunking returns: the whole text as the single chunk when it fits in
/// one window (unmodified, including surrounding whitespace), and the
/// windowed segments otherwise.
pub open spec fn chunk_model(text: Seq<char>, chunk_size: int, overlap: int) -> Seq<Seq<char>> {
    if text.len() <= chunk_size {
        seq![text]
    } else {
        windows_from(text, chunk_size, overlap, 0)
    }
}

/// The views of a sequence of owned strings.
pub open spec fn views_of(v: Seq<String>) -> Seq<Seq<char>> {
    v.map_values(|s: String| s@)
}

proof fn lemma_cut_point_in_window(text: Seq<char>, chunk_size: int, start: int)
    requires
        0 <= chunk_size,
        0 <= start < text.len(),
    ensures
        start <= cut_point(text, chunk_size, start),
        cut_point(text, chunk_size, start) <= start + chunk_size,
        cut_point(text, chunk_size, start) <= text.len(),
{
    let end = if start + chunk_size < text.len() {
        start + chunk_size
    } else {
        text.len() as int
    };
    if end < text.len() {
        lemma_last_sentence_end(text, start, end - 1);
        lemma_last_space(text, start, end);
    }
}

proof fn lemma_trim_front_len(s: Seq<char>)
    ensures
        trim_front(s).len() <= s.len(),
    decreases s.len(),
{
    if s.len() > 0 && is_space(s[0]) {
        lemma_trim_front_len(s.drop_first());
    }
}

proof fn lemma_trim_back_len(s: Seq<char>)
    ensures
        trim_back(s).len() <= s.len(),
    decreases s.len(),
{
    if s.len() > 0 && is_space(s[s.len() - 1]) {
        lemma_trim_back_len(s.drop_last());
    }
}

proof fn lemma_trim_seq_len(s: Seq<char>)
    ensures
        trim_seq(s).len() <= s.len(),
{
    lemma_trim_front_len(s);
    lemma_trim_back_len(trim_front(s));
}

proof fn lemma_trim_front_is_subrange(s: Seq<char>, i: int)
    requires
        0 <= i <= s.len(),
        forall|j: int| 0 <= j < i ==> is_space(s[j]),
        i == s.len() || !is_space(s[i]),
    ensures
        trim_front(s) == s.subrange(i, s.len() as int),
    decreases i,
{
    if i == 0 {
        assert(s.subrange(0, s.len() as int) =~= s);
    } else {
        assert(is_space(s[0]));
        let t = s.drop_first();
        assert(forall|j: int| 0 <= j < i - 1 ==> is_space(#[trigger] t[j]));
        lemma_trim_front_is_subrange(t, i - 1);
        assert(t.subrange(i - 1, t.len() as int) =~= s.subrange(i, s.len() as int));
    }
}

proof fn lemma_trim_back_is_subrange(s: Seq<char>, h: int)
    requires
        0 <= h <= s.len(),
        forall|j: int| h <= j < s.len() ==> is_space(s[j]),
        h == 0 || !is_space(s[h - 1]),
    ensures
        trim_back(s) == s.subrange(0, h),
    decreases s.len() - h,
{
    if h == s.len() {
        assert(s.subrange(0, s.len() as int) =~= s);
    } else {
        assert(is_space(s[s.len() - 1]));
        let t = s.drop_last();
        assert(forall|j: int| h <= j < t.len() ==> is_space(#[trigger] t[j]));
        lemma_trim_back_is_subrange(t, h);
        assert(t.subrange(0, h) =~= s.subrange(0, h));
    }
}

/// Trimming removes nothing from a sequence without whitespace.
proof fn lemma_trim_seq_no_space(s: Seq<char>)
    requires
        forall|j: int| 0 <= j < s.len() ==> !is_space(s[j]),
    ensures
        trim_seq(s) == s,
{
    lemma_trim_front_is_subrange(s, 0);
    assert(s.subrange(0, s.len() as int) =~= s);
    lemma_trim_back_is_subrange(s, s.len() as int);
}

/// A sequence whose last character is not whitespace keeps that character
/// through trimming, and stays non-empty.
proof fn lemma_trim_keeps_last(s: Seq<char>)
    requires
        s.len() > 0,
        !is_space(s[s.len() - 1]),
    ensures
        trim_seq(s).len() > 0,
        trim_seq(s)[trim_seq(s).len() - 1] == s[s.len() - 1],
{
    lemma_trim_front_keeps_last(s);
    let t = trim_front(s);
    assert(trim_back(t) == t);
}

proof fn lemma_trim_front_keeps_last(s: Seq<char>)
    requires
        s.len() > 0,
        !is_space(s[s.len() - 1]),
    ensures
        trim_front(s).len() > 0,
        trim_front(s)[trim_front(s).len() - 1] == s[s.len() - 1],
    decreases s.len(),
{
    if is_space(s[0]) {
        let t = s.drop_first();
        assert(t[t.len() - 1] == s[s.len() - 1]);
        lemma_trim_front_keeps_last(t);
    }
}

/// Every segment of the windowed path is non-empty and no longer than the
/// window size.
proof fn lemma_windows_from_bounds(text: Seq<char>, chunk_size: int, overlap: int, start: int)
    requires
        0 <= chunk_size,
        0 <= overlap,
        0 <= start <= text.len(),
    ensures
        forall|k: int|
            0 <= k < windows_from(text, chunk_size, overlap, start).len() ==> 0 < (
            #[trigger] windows_from(text, chunk_size, overlap, start)[k]).len() <= chunk_size
                && is_trimmed(windows_from(text, chunk_size, overlap, start)[k]),
    decreases text.len() - start,
{
    if start >= text.len() {
    } else {
        let cut = cut_point(text, chunk_size, start);
        lemma_cut_point_in_window(text, chunk_size, start);
        let piece = trim_seq(text.subrange(start, cut));
        lemma_trim_seq_len(text.subrange(start, cut));
        lemma_trim_seq_idempotent(text.subrange(start, cut));
        assert(piece.len() <= cut - start <= chunk_size);
        let head: Seq<Seq<char>> = if piece.len() > 0 {
            seq![piece]
        } else {
            Seq::empty()
        };
        assert(forall|k: int|
            0 <= k < head.len() ==> 0 < (#[trigger] head[k]).len() <= chunk_size && is_trimmed(
                head[k],
            ));
        if cut >= text.len() {
            assert(windows_from(text, chunk_size, overlap, start) == head);
        } else {
            let nxt = next_start(start, cut, overlap);
            let rest = windows_from(text, chunk_size, overlap, nxt);
            lemma_windows_from_bounds(text, chunk_size, overlap, nxt);
            assert(windows_from(text, chunk_size, overlap, start) == head + rest);
            assert forall|k: int| 0 <= k < (head + rest).len() implies 0 < (#[trigger] (head
                + rest)[k]).len() <= chunk_size && is_trimmed((head + rest)[k]) by {
                if k < head.len() {
                    assert((head + rest)[k] == head[k]);
                } else {
                    assert((head + rest)[k] == rest[k - head.len()]);
                }
            }
        }
    }
}

/// Whatever the input, every returned chunk is at most `chunk_size` long.
pub proof fn lemma_chunk_model_bounds(text: Seq<char>, chunk_size: int, overlap: int)
    requires
        0 <= chunk_size,
        0 <= overlap,
    ensures
        forall|k: int|
            0 <= k < chunk_model(text, chunk_size, overlap).len() ==> (#[trigger] chunk_model(
                text,
                chunk_size,
                overlap,
            )[k]).len() <= (if text.len() <= chunk_size {
                text.len() as int
            } else {
                chunk_size
            }),
        text.len() > chunk_size ==> forall|k: int|
            0 <= k < chunk_model(text, chunk_size, overlap).len() ==> 0 < (#[trigger] chunk_model(
                text,
                chunk_size,
                overlap,
            )[k]).len() && is_trimmed(chunk_model(text, chunk_size, overlap)[k]),
{
    if text.len() > chunk_size {
        lemma_windows_from_bounds(text, chunk_size, overlap, 0);
    }
}

/// Text longer than the window, chunked with an overlap smaller than the
/// window and containing no whitespace, yields at least two chunks.  (With
/// whitespace in the text a window can trim to nothing and be dropped, so
/// fewer chunks can come back: a thousand spaces followed by one letter,
/// with a window of one thousand, gives a single chunk.)
pub proof fn lemma_long_input_splits(text: Seq<char>, chunk_size: int, overlap: int)
    requires
        text.len() > chunk_size,
        0 <= overlap < chunk_size,
        forall|j: int| 0 <= j < text.len() ==> !is_space(text[j]),
    ensures
        chunk_model(text, chunk_size, overlap).len() >= 2,
{
    let cut = cut_point(text, chunk_size, 0);
    lemma_cut_point_in_window(text, chunk_size, 0);
    lemma_cut_at_least_one(text, chunk_size, 0);
    let sub = text.subrange(0, cut);
    assert(forall|j: int| 0 <= j < sub.len() ==> !is_space(#[trigger] sub[j]));
    lemma_trim_seq_no_space(sub);
    assert(cut <= chunk_size < text.len());
    let nxt = next_start(0, cut, overlap);
    assert(0 < nxt <= text.len());
    lemma_windows_from_nonempty(text, chunk_size, overlap, nxt);
    assert(windows_from(text, chunk_size, overlap, 0).len() >= 1 + windows_from(
        text,
        chunk_size,
        overlap,
        nxt,
    ).len());
}

/// In whitespace-free text every window cut makes progress past its start.
proof fn lemma_cut_at_least_one(text: Seq<char>, chunk_size: int, start: int)
    requires
        1 <= chunk_size,
        0 <= start < text.len(),
        forall|j: int| 0 <= j < text.len() ==> !is_space(text[j]),
    ensures
        cut_point(text, chunk_size, start) > start,
{
    let end = if start + chunk_size < text.len() {
        start + chunk_size
    } else {
        text.len() as int
    };
    if end < text.len() {
        lemma_last_sentence_end(text, start, end - 1);
        lemma_last_space(text, start, end);
    }
}

/// The windowed path over whitespace-free text emits at least one segment.
proof fn lemma_windows_from_nonempty(text: Seq<char>, chunk_size: int, overlap: int, start: int)
    requires
        1 <= chunk_size,
        0 <= overlap,
        0 <= start < text.len(),
        forall|j: int| 0 <= j < text.len() ==> !is_space(text[j]),
    ensures
        windows_from(text, chunk_size, overlap, start).len() >= 1,
{
    let cut = cut_point(text, chunk_size, start);
    lemma_cut_point_in_window(text, chunk_size, start);
    lemma_cut_at_least_one(text, chunk_size, start);
    let sub = text.subrange(start, cut);
    assert(forall|j: int| 0 <= j < sub.len() ==> !is_space(#[trigger] sub[j]));
    lemma_trim_seq_no_space(sub);
}

/// Sentence-boundary preference: when a window that does not reach the end
/// of the text contains a sentence-ending character somewhere before the
/// window's last position, the cut lands just after the last such character,
/// and the emitted (trimmed) segment ends with it.
pub proof fn lemma_sentence_boundary_preference(
    text: Seq<char>,
    chunk_size: int,
    start: int,
    p: int,
)
    requires
        0 <= start,
        start + chunk_size < text.len(),
        start <= p < start + chunk_size - 1,
        is_sentence_end(text[p]),
    ensures
        ({
            let cut = cut_point(text, chunk_size, start);
            &&& start < cut <= start + chunk_size - 1
            &&& is_sentence_end(text[cut - 1])
            &&& forall|j: int| cut - 1 < j < start + chunk_size - 1 ==> !is_sentence_end(text[j])
            &&& trim_seq(text.subrange(start, cut)).len() > 0
            &&& trim_seq(text.subrange(start, cut)).last() == text[cut - 1]
        }),
{
    let end = start + chunk_size;
    lemma_last_sentence_end(text, start, end - 1);
    let q = last_sentence_end(text, start, end - 1)->Some_0;
    let cut = cut_point(text, chunk_size, start);
    assert(cut == q + 1);
    let sub = text.subrange(start, cut);
    assert(sub[sub.len() - 1] == text[q]);
    assert(!is_space(text[q]));
    lemma_trim_keeps_last(sub);
}

fn sentence_end_char(c: char) -> (r: bool)
    ensures
        r == is_sentence_end(c),
{
    c == '.' || c == '!' || c == '?'
}

fn space_char(c: char) -> (r: bool)
    ensures
        r == is_space(c),
{
    c == ' ' || c == '\t' || c == '\n' || c == '\r' || c == '\u{b}' || c == '\u{c}' || c
        == '\u{85}' || c == '\u{a0}' || c == '\u{1680}' || c == '\u{2000}' || c == '\u{2001}' || c
        == '\u{2002}' || c == '\u{2003}' || c == '\u{2004}' || c == '\u{2005}' || c == '\u{2006}'
        || c == '\u{2007}' || c == '\u{2008}' || c == '\u{2009}' || c == '\u{200a}' || c
        == '\u{2028}' || c == '\u{2029}' || c == '\u{202f}' || c == '\u{205f}' || c == '\u{3000}'
}

/// `text[start..end]` with leading and trailing whitespace removed.
pub(crate) fn trim_range(text: &Vec<char>, start: usize, end: usize) -> (r: Vec<char>)
    requires
        start <= end,
        end <= text.len(),
    ensures
        r@ == trim_seq(text@.subrange(start as int, end as int)),
{
    let mut lo: usize = start;
    while lo < end && space_char(text[lo])
        invariant
            start <= lo <= end,
            end <= text.len(),
            forall|j: int| start <= j < lo ==> is_space(text@[j]),
        decreases end - lo,
    {
        lo += 1;
    }
    let mut hi: usize = end;
    while hi > lo && space_char(text[hi - 1])
        invariant
            lo <= hi <= end,
            end <= text.len(),
            forall|j: int| hi <= j < end ==> is_space(text@[j]),
        decreases hi,
    {
        hi -= 1;
    }
    let mut r: Vec<char> = Vec::new();
    let mut k: usize = lo;
    while k < hi
        invariant
            lo <= k <= hi <= end,
            end <= text.len(),
            r@ == text@.subrange(lo as int, k as int),
        decreases hi - k,
    {
        let c = text[k];
        r.push(c);
        proof {
            assert(r@ =~= text@.subrange(lo as int, k as int + 1));
        }
        k += 1;
    }
    proof {
        let s = text@.subrange(start as int, end as int);
        let i = lo as int - start as int;
        assert(forall|j: int| 0 <= j < i ==> is_space(#[trigger] s[j]));
        assert(i == s.len() || !is_space(s[i]));
        lemma_trim_front_is_subrange(s, i);
        let t = s.subrange(i, s.len() as int);
        assert(t =~= text@.subrange(lo as int, end as int));
        let h = hi as int - lo as int;
        assert(forall|j: int| h <= j < t.len() ==> is_space(#[trigger] t[j]));
        assert(h == 0 || !is_space(t[h - 1]));
        lemma_trim_back_is_subrange(t, h);
        assert(trim_seq(s) == t.subrange(0, h));
        assert(t.subrange(0, h) =~= text@.subrange(lo as int, hi as int));
        assert(r@ == text@.subrange(lo as int, hi as int));
    }
    r
}

impl TextChunker {
    /// The position just after the last sentence-ending character of the
    /// window `text[start..end]`, provided some character of the window
    /// follows it; `None` when the window has no such character.
    fn find_sentence_boundary(text: &Vec<char>, start: usize, end: usize) -> (r: Option<usize>)
        requires
            start <= end,
            end <= text.len(),
        ensures
            match r {
                Some(c) => {
                    &&& start < c < end
                    &&& last_sentence_end(text@, start as int, end as int - 1) == Some(c as int - 1)
                },
                None => last_sentence_end(text@, start as int, end as int - 1) is None,
            },
    {
        proof {
            lemma_last_sentence_end(text@, start as int, end as int - 1);
        }
        if end <= start {
            return None;
        }
        let mut i: usize = end - 1;
        while i > start
            invariant
                start <= i <= end - 1,
                end <= text.len(),
                forall|j: int| i <= j < end - 1 ==> !is_sentence_end(text@[j]),
            decreases i,
        {
            if sentence_end_char(text[i - 1]) {
                proof {
                    lemma_last_sentence_end(text@, start as int, end as int - 1);
                }
                return Some(i);
            }
            i -= 1;
        }
        proof {
            lemma_last_sentence_end(text@, start as int, end as int - 1);
        }
        None
    }

    /// The position of the last whitespace character of the window
    /// `text[start..end]`; `None` when the window has none.
    fn find_word_boundary(text: &Vec<char>, start: usize, end: usize) -> (r: Option<usize>)
        requires
            start <= end,
            end <= text.len(),
        ensures
            match r {
                Some(w) => {
                    &&& start <= w < end
                    &&& last_space(text@, start as int, end as int) == Some(w as int)
                },
                None => last_space(text@, start as int, end as int) is None,
            },
    {
        proof {
            lemma_last_space(text@, start as int, end as int);
        }
        let mut i: usize = end;
        while i > start
            invariant
                start <= i <= end,
                end <= text.len(),
                forall|j: int| i <= j < end ==> !is_space(text@[j]),
            decreases i,
        {
            if space_char(text[i - 1]) {
                proof {
                    lemma_last_space(text@, start as int, end as int);
                }
                return Some(i - 1);
            }
            i -= 1;
        }
        proof {
            lemma_last_space(text@, start as int, end as int);
        }
        None
    }

    /// Chunk with the default window size and overlap.
    pub fn chunk_text(text: &str) -> (r: Vec<String>)
        ensures
            views_of(r@) == chunk_model(text@, DEFAULT_CHUNK_SIZE as int, DEFAULT_OVERLAP as int),
            text@.len() <= DEFAULT_CHUNK_SIZE ==> r@.len() == 1 && r@[0]@ == text@,
            forall|i: int| 0 <= i < r@.len() ==> (#[trigger] r@[i])@.len() <= DEFAULT_CHUNK_SIZE,
    {
        Self::chunk_text_with_options(text, DEFAULT_CHUNK_SIZE, DEFAULT_OVERLAP)
    }

    /// Split `text` into ordered, possibly overlapping segments of at most
    /// `chunk_size` characters.  Text that fits in one window is returned
    /// unmodified as the single chunk; otherwise each window is cut at a
    /// sentence boundary, else a word boundary, else the window edge, and
    /// the trimmed segments are returned with empty ones dropped.
    pub fn chunk_text_with_options(text: &str, chunk_size: usize, overlap: usize) -> (r: Vec<
        String,
    >)
        ensures
            views_of(r@) == chunk_model(text@, chunk_size as int, overlap as int),
            text@.len() <= chunk_size ==> r@.len() == 1 && r@[0]@ == text@,
            forall|i: int| 0 <= i < r@.len() ==> (#[trigger] r@[i])@.len() <= chunk_size,
            text@.len() > chunk_size ==> forall|i: int|
                0 <= i < r@.len() ==> (#[trigger] r@[i])@.len() > 0 && is_trimmed(r@[i]@),
    {
        let cs = str_chars(text);
        let n = cs.len();
        if n <= chunk_size {
            let mut r: Vec<String> = Vec::new();
            r.push(text.to_owned());
            proof {
                assert(views_of(r@) =~= seq![text@]);
            }
            return r;
        }
        let ghost csz = chunk_size as int;
        let ghost ov = overlap as int;
        let mut chunks: Vec<String> = Vec::new();
        let mut start: usize = 0;
        while start < n
            invariant
                n == cs.len(),
                cs@ == text@,
                n > chunk_size,
                start <= n,
                views_of(chunks@) + windows_from(text@, csz, ov, start as int) == windows_from(
                    text@,
                    csz,
                    ov,
                    0,
                ),
                csz == chunk_size as int,
                ov == overlap as int,
            decreases n - start,
        {
            let end = if chunk_size < n - start {
                start + chunk_size
            } else {
                n
            };
            let mut cut = end;
            if end < n {
                match Self::find_sentence_boundary(&cs, start, end) {
                    Some(c) => {
                        cut = c;
                        assert(start <= cut <= n && cut as int == cut_point(
                            text@,
                            csz,
                            start as int,
                        ));
                    },
                    None => {
                        match Self::find_word_boundary(&cs, start, end) {
                            Some(w) => {
                                cut = w;
                                assert(start <= cut <= n && cut as int == cut_point(
                                    text@,
                                    csz,
                                    start as int,
                                ));
                            },
                            None => {
                                assert(start <= cut <= n && cut as int == cut_point(
                                    text@,
                                    csz,
                                    start as int,
                                ));
                            },
                        }
                    },
                }
            } else {
                assert(start <= cut <= n && cut as int == cut_point(text@, csz, start as int));
            }
            let piece = trim_range(&cs, start, cut);
            let ghost pre = views_of(chunks@);
            let ghost head = if trim_seq(text@.subrange(start as int, cut as int)).len() > 0 {
                seq![trim_seq(text@.subrange(start as int, cut as int))]
            } else {
                Seq::<Seq<char>>::empty()
            };
            if piece.len() > 0 {
                let s = chars_to_string(&piece);
                chunks.push(s);
            }
            proof {
                assert(views_of(chunks@) =~= pre + head);
            }
            if cut >= n {
                proof {
                    assert(windows_from(text@, csz, ov, start as int) == head);
                    assert(views_of(chunks@) + windows_from(text@, csz, ov, n as int)
                        =~= windows_from(text@, csz, ov, 0));
                }
                start = n;
            } else {
                let nxt = if cut > overlap {
                    cut - overlap
                } else {
                    cut
                };
                let new_start = if nxt > start {
                    nxt
                } else {
                    start + 1
                };
                proof {
                    assert(new_start as int == next_start(start as int, cut as int, ov));
                    assert(windows_from(text@, csz, ov, start as int) == head + windows_from(
                        text@,
                        csz,
                        ov,
                        new_start as int,
                    ));
                    assert(views_of(chunks@) + windows_from(text@, csz, ov, new_start as int)
                        =~= windows_from(text@, csz, ov, 0));
                }
                start = new_start;
            }
        }
        proof {
            assert(windows_from(text@, csz, ov, n as int) =~= Seq::<Seq<char>>::empty());
            assert(views_of(chunks@) =~= windows_from(text@, csz, ov, 0));
            lemma_chunk_model_bounds(text@, csz, ov);
            assert forall|i: int| 0 <= i < chunks@.len() implies 0 < (#[trigger] chunks@[i])@.len()
                <= chunk_size && is_trimmed(chunks@[i]@) by {
                assert(chunks@[i]@ == views_of(chunks@)[i]);
                assert(views_of(chunks@)[i] == chunk_model(text@, csz, ov)[i]);
            }
        }
        chunks
    }
}

} // verus!
