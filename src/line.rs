use vstd::prelude::*;
use crate::text::{
    concat_all, concat_strings, display_width, graphemes_of, is_alphanumeric, split_graphemes,
    views, width_of, alphanumeric,
};

verus! {

/// A grapheme cluster that may stand in a line: not empty, and holding no
/// line terminator.
pub open spec fn grapheme_ok(g: Seq<char>) -> bool {
    g.len() > 0 && !g.contains('\n')
}

/// Whether a grapheme counts as part of a word: its leading code point is
/// alphanumeric or an underscore.
pub open spec fn is_word_grapheme(g: Seq<char>) -> bool {
    g.len() > 0 && (alphanumeric(g[0]) || g[0] == '_')
}

/// The word class of each grapheme of a line.
pub open spec fn word_classes(l: Seq<Seq<char>>) -> Seq<bool> {
    l.map_values(|g: Seq<char>| is_word_grapheme(g))
}

/// Total display width of a sequence of graphemes.
pub open spec fn width_sum(gs: Seq<Seq<char>>) -> int
    decreases gs.len(),
{
    if gs.len() == 0 {
        0
    } else {
        width_sum(gs.drop_last()) + width_of(gs.last())
    }
}

/// One line of a document: a sequence of grapheme clusters, each held as
/// its own string.
pub struct Line {
    graphemes: Vec<String>,
}

impl View for Line {
    type V = Seq<Seq<char>>;

    closed spec fn view(&self) -> Seq<Seq<char>> {
        views(self.graphemes@)
    }
}

impl Line {
    /// Every grapheme of the line may stand in a line.
    pub open spec fn wf(&self) -> bool {
        forall|j: int| 0 <= j < self@.len() ==> grapheme_ok(#[trigger] self@[j])
    }

    /// An empty line.
    pub fn empty() -> (r: Line)
        ensures
            r@ == Seq::<Seq<char>>::empty(),
            r.wf(),
    {
        let r = Line { graphemes: Vec::new() };
        assert(r@ =~= Seq::<Seq<char>>::empty());
        r
    }

    /// The line made of the grapheme clusters of a text that holds no line
    /// terminator.
    pub fn from_text(text: &str) -> (r: Line)
        requires
            !text@.contains('\n'),
        ensures
            r@ == graphemes_of(text@),
            concat_all(r@) == text@,
            r.wf(),
    {
        let graphemes = split_graphemes(text);
        let r = Line { graphemes };
        proof {
            assert forall|j: int| 0 <= j < r@.len() implies grapheme_ok(#[trigger] r@[j]) by {
                lemma_piece_within(r@, j);
                if r@[j].contains('\n') {
                    let k = choose|k: int| 0 <= k < r@[j].len() && r@[j][k] == '\n';
                    assert(text@.contains('\n')) by {
                        lemma_piece_char(r@, j, k);
                    }
                }
            }
        }
        r
    }

    /// The number of graphemes.
    pub fn len(&self) -> (r: usize)
        ensures
            r == self@.len(),
    {
        self.graphemes.len()
    }

    /// The text of the line.
    pub fn text(&self) -> (r: String)
        ensures
            r@ == concat_all(self@),
    {
        concat_strings(&self.graphemes)
    }

    /// Inserts a grapheme before column `col`.
    pub fn insert_grapheme(&mut self, col: usize, g: String)
        requires
            col <= old(self)@.len(),
        ensures
            final(self)@ == old(self)@.insert(col as int, g@),
    {
        let ghost before = self.graphemes@;
        self.graphemes.insert(col, g);
        assert(self@ =~= views(before).insert(col as int, g@));
    }

    /// Removes the grapheme at column `col`.
    pub fn remove_grapheme(&mut self, col: usize)
        requires
            col < old(self)@.len(),
        ensures
            final(self)@ == old(self)@.remove(col as int),
    {
        let ghost before = self.graphemes@;
        self.graphemes.remove(col);
        assert(self@ =~= views(before).remove(col as int));
    }

    /// Cuts the line at column `col`, keeping the head and returning the
    /// tail.
    pub fn split_off(&mut self, col: usize) -> (r: Line)
        requires
            col <= old(self)@.len(),
        ensures
            final(self)@ == old(self)@.take(col as int),
            r@ == old(self)@.skip(col as int),
    {
        let ghost before = self.graphemes@;
        let tail = self.graphemes.split_off(col);
        assert(self@ =~= views(before).take(col as int));
        let r = Line { graphemes: tail };
        assert(r@ =~= views(before).skip(col as int));
        r
    }

    /// Appends the graphemes of another line.
    pub fn append(&mut self, other: Line)
        ensures
            final(self)@ == old(self)@ + other@,
    {
        let ghost before = self.graphemes@;
        let ghost added = other.graphemes@;
        let mut other = other;
        self.graphemes.append(&mut other.graphemes);
        assert(self@ =~= views(before) + views(added));
    }

    /// The word class of each grapheme (`true` for a word grapheme).
    pub fn word_classes(&self) -> (r: Vec<bool>)
        ensures
            r@ == word_classes(self@),
    {
        let mut r: Vec<bool> = Vec::new();
        let mut i: usize = 0;
        while i < self.graphemes.len()
            invariant
                i <= self.graphemes@.len(),
                r@.len() == i,
                forall|k: int| 0 <= k < i ==> r@[k] == is_word_grapheme(#[trigger] self@[k]),
            decreases self.graphemes@.len() - i,
        {
            let g = self.graphemes[i].as_str();
            let word = if g.unicode_len() == 0 {
                false
            } else {
                let c = g.get_char(0);
                c == '_' || is_alphanumeric(c)
            };
            r.push(word);
            i = i + 1;
        }
        assert(r@ =~= word_classes(self@));
        r
    }

    /// Total display width of the graphemes in columns `[from, to)`, or
    /// `None` when it does not fit in a `usize`.
    pub fn width_between(&self, from: usize, to: usize) -> (r: Option<usize>)
        requires
            from <= to <= self@.len(),
        ensures
            width_sum(self@.subrange(from as int, to as int)) <= usize::MAX ==> r == Some(
                width_sum(self@.subrange(from as int, to as int)) as usize,
            ),
            width_sum(self@.subrange(from as int, to as int)) > usize::MAX ==> r is None,
    {
        let mut total: usize = 0;
        let mut i: usize = from;
        while i < to
            invariant
                from <= i <= to <= self@.len(),
                total == width_sum(self@.subrange(from as int, i as int)),
            decreases to - i,
        {
            let w = display_width(self.graphemes[i].as_str());
            proof {
                assert(self@.subrange(from as int, i + 1).drop_last() =~= self@.subrange(
                    from as int,
                    i as int,
                ));
                lemma_width_sum_monotone(self@.subrange(from as int, to as int), i + 1 - from);
                assert(self@.subrange(from as int, to as int).take(i + 1 - from) =~= self@.subrange(
                    from as int,
                    i + 1,
                ));
                assert(self@.subrange(from as int, to as int).take(to - from) =~= self@.subrange(
                    from as int,
                    to as int,
                ));
            }
            match total.checked_add(w) {
                Some(t) => {
                    total = t;
                },
                None => {
                    return None;
                },
            }
            i = i + 1;
        }
        Some(total)
    }
}

/// Widths are never negative, nor their sums.
pub proof fn lemma_width_sum_nonneg(gs: Seq<Seq<char>>)
    ensures
        width_sum(gs) >= 0,
    decreases gs.len(),
{
    if gs.len() > 0 {
        lemma_width_sum_nonneg(gs.drop_last());
    }
}

/// A line holds at most `usize::MAX` graphemes.
pub proof fn lemma_line_len_fits(l: &Line)
    ensures
        l@.len() <= usize::MAX,
{
    assert(l@.len() == l.graphemes@.len());
    assert(l.graphemes@.len() == l.graphemes.len());
}

/// The sum of widths over a prefix never exceeds the sum over the whole.
pub proof fn lemma_width_sum_monotone(gs: Seq<Seq<char>>, n: int)
    requires
        0 <= n <= gs.len(),
    ensures
        width_sum(gs.take(n)) <= width_sum(gs),
    decreases gs.len() - n,
{
    if n < gs.len() {
        lemma_width_sum_monotone(gs, n + 1);
        assert(gs.take(n + 1).drop_last() =~= gs.take(n));
    } else {
        assert(gs.take(n) =~= gs);
    }
}

/// Each piece lies within the concatenation: its length is bounded.
proof fn lemma_piece_within(ps: Seq<Seq<char>>, j: int)
    requires
        0 <= j < ps.len(),
    ensures
        ps[j].len() <= concat_all(ps).len(),
    decreases ps.len(),
{
    if j < ps.len() - 1 {
        lemma_piece_within(ps.drop_last(), j);
    }
}

/// A character of a piece appears in the concatenation.
pub proof fn lemma_piece_char(ps: Seq<Seq<char>>, j: int, k: int)
    requires
        0 <= j < ps.len(),
        0 <= k < ps[j].len(),
    ensures
        concat_all(ps).contains(ps[j][k]),
    decreases ps.len(),
{
    let c = concat_all(ps);
    if j < ps.len() - 1 {
        lemma_piece_char(ps.drop_last(), j, k);
        let d = concat_all(ps.drop_last());
        let m = choose|m: int| 0 <= m < d.len() && d[m] == ps[j][k];
        assert(c[m] == ps[j][k]);
    } else {
        let d = concat_all(ps.drop_last());
        assert(c[d.len() + k] == ps[j][k]);
    }
}

} // verus!
