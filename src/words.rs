use vstd::prelude::*;

verus! {

/// From column `i`, the first column at or after `i` whose class is not `b`
/// (or the end of the line).
pub open spec fn skip_fwd(w: Seq<bool>, i: int, b: bool) -> int
    decreases w.len() - i,
{
    if 0 <= i < w.len() && w[i] == b {
        skip_fwd(w, i + 1, b)
    } else {
        i
    }
}

/// From column `i`, walking left, the first column whose left neighbour's
/// class is not `b` (or the start of the line).
pub open spec fn skip_back(w: Seq<bool>, i: int, b: bool) -> int
    decreases i,
{
    if 0 < i <= w.len() && w[i - 1] == b {
        skip_back(w, i - 1, b)
    } else {
        i
    }
}

/// The column that a forward word motion reaches inside a line whose
/// graphemes have the word classes `w`: past the word under the cursor (if
/// any), then past the non-word run that follows.
pub open spec fn next_stop(w: Seq<bool>, col: int) -> int {
    skip_fwd(w, skip_fwd(w, col, true), false)
}

/// The column that a backward word motion reaches inside a line: back past
/// the non-word run before the cursor, then back past the word before it.
pub open spec fn prev_stop(w: Seq<bool>, col: int) -> int {
    skip_back(w, skip_back(w, col, false), true)
}

/// The first column of the word under `col`, or `col` itself when the
/// grapheme there is not a word grapheme.
pub open spec fn word_start(w: Seq<bool>, col: int) -> int {
    if 0 <= col < w.len() && w[col] {
        skip_back(w, col, true)
    } else {
        col
    }
}

/// What a forward skip reaches: a column no earlier than the start, every
/// column passed holds class `b`, and the one reached does not.
pub proof fn lemma_skip_fwd(w: Seq<bool>, i: int, b: bool)
    requires
        0 <= i <= w.len(),
    ensures
        i <= skip_fwd(w, i, b) <= w.len(),
        forall|k: int| i <= k < skip_fwd(w, i, b) ==> w[k] == b,
        skip_fwd(w, i, b) == w.len() || w[skip_fwd(w, i, b)] != b,
    decreases w.len() - i,
{
    if i < w.len() && w[i] == b {
        lemma_skip_fwd(w, i + 1, b);
    }
}

/// What a backward skip reaches: a column no later than the start, every
/// column passed holds class `b`, and the left neighbour of the one reached
/// does not.
pub proof fn lemma_skip_back(w: Seq<bool>, i: int, b: bool)
    requires
        0 <= i <= w.len(),
    ensures
        0 <= skip_back(w, i, b) <= i,
        forall|k: int| skip_back(w, i, b) <= k < i ==> w[k] == b,
        skip_back(w, i, b) == 0 || w[skip_back(w, i, b) - 1] != b,
    decreases i,
{
    if 0 < i && w[i - 1] == b {
        lemma_skip_back(w, i - 1, b);
    }
}

/// Walking back over a run of class `b` reaches what walking back from the
/// run's start reaches.
pub proof fn lemma_skip_back_run(w: Seq<bool>, a: int, i: int, b: bool)
    requires
        0 <= a <= i <= w.len(),
        forall|k: int| a <= k < i ==> w[k] == b,
    ensures
        skip_back(w, i, b) == skip_back(w, a, b),
    decreases i - a,
{
    if a < i {
        lemma_skip_back_run(w, a, i - 1, b);
    }
}

/// A word motion forward, then one backward within the same line, never
/// lands right of the start of the word the cursor was on; and both motions
/// make progress, so alternating them always ends.
pub proof fn lemma_word_motion_round_trip(w: Seq<bool>, col: int)
    requires
        0 <= col < w.len(),
    ensures
        col < next_stop(w, col) <= w.len(),
        0 <= prev_stop(w, next_stop(w, col)) < next_stop(w, col),
        prev_stop(w, next_stop(w, col)) <= word_start(w, col) <= col,
{
    let e = skip_fwd(w, col, true);
    let q = skip_fwd(w, e, false);
    lemma_skip_fwd(w, col, true);
    lemma_skip_fwd(w, e, false);
    lemma_skip_back_run(w, e, q, false);
    let s = skip_back(w, q, false);
    lemma_skip_back(w, e, false);
    lemma_skip_back(w, q, false);
    lemma_skip_back(w, s, true);
    if e > col {
        assert(w[e - 1]);
        assert(s == e);
        lemma_skip_back_run(w, col, e, true);
        lemma_skip_back(w, col, true);
    } else {
        assert(!w[col]);
        assert(q > col);
    }
}

/// Forward motions make progress until the end of the line, backward ones
/// until its start.
pub proof fn lemma_word_motions_progress(w: Seq<bool>, col: int)
    requires
        0 <= col <= w.len(),
    ensures
        col < w.len() ==> col < next_stop(w, col),
        col <= next_stop(w, col) <= w.len(),
        0 < col ==> prev_stop(w, col) < col,
        0 <= prev_stop(w, col) <= col,
{
    let e = skip_fwd(w, col, true);
    lemma_skip_fwd(w, col, true);
    lemma_skip_fwd(w, e, false);
    let s = skip_back(w, col, false);
    lemma_skip_back(w, col, false);
    lemma_skip_back(w, s, true);
}

/// The column a forward word motion reaches, given the word class of each
/// grapheme of the line (`true` for a word grapheme).
pub fn next_word_col(words: &Vec<bool>, col: usize) -> (r: usize)
    requires
        col <= words.len(),
    ensures
        r == next_stop(words@, col as int),
{
    let mut c = col;
    while c < words.len() && words[c]
        invariant
            col <= c <= words.len(),
            skip_fwd(words@, c as int, true) == skip_fwd(words@, col as int, true),
        decreases words.len() - c,
    {
        c = c + 1;
    }
    let ghost mid = c;
    while c < words.len() && !words[c]
        invariant
            mid <= c <= words.len(),
            mid == skip_fwd(words@, col as int, true),
            skip_fwd(words@, c as int, false) == skip_fwd(words@, mid as int, false),
        decreases words.len() - c,
    {
        c = c + 1;
    }
    c
}

/// The column a backward word motion reaches, given the word class of each
/// grapheme of the line.
pub fn prev_word_col(words: &Vec<bool>, col: usize) -> (r: usize)
    requires
        col <= words.len(),
    ensures
        r == prev_stop(words@, col as int),
{
    let mut c = col;
    while c > 0 && !words[c - 1]
        invariant
            c <= col <= words.len(),
            skip_back(words@, c as int, false) == skip_back(words@, col as int, false),
        decreases c,
    {
        c = c - 1;
    }
    let ghost mid = c;
    while c > 0 && words[c - 1]
        invariant
            c <= mid <= words.len(),
            mid == skip_back(words@, col as int, false),
            skip_back(words@, c as int, true) == skip_back(words@, mid as int, true),
        decreases c,
    {
        c = c - 1;
    }
    c
}

} // verus!
