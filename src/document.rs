use vstd::prelude::*;
use crate::highlighting::{covered_text, Highlighter, HighlightedSegment};
use crate::line::{grapheme_ok, word_classes, Line};
use crate::text::{concat_all, lines_of, graphemes_of, push_char, split_text_lines, views};
use crate::words::{
    lemma_word_motion_round_trip, next_stop, next_word_col, prev_stop, prev_word_col, word_start,
};

verus! {

/// The highlight cache entry of one line: styled segments that, once
/// computed, cover the line's text. An empty entry is one not computed yet.
pub struct RichLine {
    pub line: Vec<HighlightedSegment>,
}

impl RichLine {
    /// The entry for a line of text, computed now.
    pub fn new(highlighter: &Highlighter, line: &str, extension: &str) -> (r: Self)
        ensures
            covered_text(r.line@) == line@,
    {
        RichLine { line: highlighter.highlight_line(line, extension) }
    }

    /// An entry not computed yet.
    pub fn empty() -> (r: Self)
        ensures
            r.line@.len() == 0,
    {
        RichLine { line: Vec::new() }
    }

    /// Whether the entry holds no segment.
    pub fn is_empty(&self) -> (r: bool)
        ensures
            r == (self.line@.len() == 0),
    {
        self.line.len() == 0
    }

    /// Replaces the entry by the segments of the line's new text.
    pub fn recalc(&mut self, highlighter: &Highlighter, line: &str, extension: &str)
        ensures
            covered_text(final(self).line@) == line@,
    {
        self.line = highlighter.highlight_line(line, extension);
    }
}

/// The text of each line of a document.
pub open spec fn line_texts(d: Seq<Seq<Seq<char>>>) -> Seq<Seq<char>> {
    d.map_values(|l: Seq<Seq<char>>| concat_all(l))
}

/// Texts joined with one line terminator between each two.
pub open spec fn join_with_newlines(ts: Seq<Seq<char>>) -> Seq<char>
    decreases ts.len(),
{
    if ts.len() == 0 {
        Seq::empty()
    } else if ts.len() == 1 {
        ts[0]
    } else {
        join_with_newlines(ts.drop_last()) + seq!['\n'] + ts.last()
    }
}

/// The index of the last `.` of a text, or -1 when it has none.
pub open spec fn last_dot(s: Seq<char>) -> int
    decreases s.len(),
{
    if s.len() == 0 {
        -1
    } else if s.last() == '.' {
        s.len() - 1
    } else {
        last_dot(s.drop_last())
    }
}

/// The extension of a file name: what follows its last `.`, or nothing.
pub open spec fn extension_of(name: Seq<char>) -> Seq<char> {
    if last_dot(name) < 0 {
        Seq::empty()
    } else {
        name.skip(last_dot(name) + 1)
    }
}

/// The lines of a document loaded from a text: one empty line when the text
/// has no lines.
pub open spec fn loaded_lines(content: Seq<char>) -> Seq<Seq<Seq<char>>> {
    if lines_of(content).len() == 0 {
        seq![Seq::<Seq<char>>::empty()]
    } else {
        lines_of(content).map_values(|t: Seq<char>| graphemes_of(t))
    }
}

/// A document after inserting grapheme `g` at (`line`, `col`).
pub open spec fn inserted(d: Seq<Seq<Seq<char>>>, line: int, col: int, g: Seq<char>) -> Seq<
    Seq<Seq<char>>,
> {
    d.update(line, d[line].insert(col, g))
}

/// A document after removing the grapheme at (`line`, `col`).
pub open spec fn removed(d: Seq<Seq<Seq<char>>>, line: int, col: int) -> Seq<Seq<Seq<char>>> {
    d.update(line, d[line].remove(col))
}

/// A document after cutting `line` at `col`: the tail becomes a new line
/// right after it.
pub open spec fn split(d: Seq<Seq<Seq<char>>>, line: int, col: int) -> Seq<Seq<Seq<char>>> {
    d.update(line, d[line].take(col)).insert(line + 1, d[line].skip(col))
}

/// A document after appending `line` to the line before it and removing it.
pub open spec fn joined(d: Seq<Seq<Seq<char>>>, line: int) -> Seq<Seq<Seq<char>>> {
    d.update(line - 1, d[line - 1] + d[line]).remove(line)
}

/// Splitting a line and joining the new line back restores the document.
pub proof fn lemma_split_join_round_trip(d: Seq<Seq<Seq<char>>>, line: int, col: int)
    requires
        0 <= line < d.len(),
        0 <= col <= d[line].len(),
    ensures
        joined(split(d, line, col), line + 1) == d,
{
    let s = split(d, line, col);
    assert(s[line] + s[line + 1] =~= d[line]);
    assert(joined(s, line + 1) =~= d);
}

/// Inserting a grapheme and removing the grapheme at the same column
/// restores the document.
pub proof fn lemma_insert_remove_round_trip(
    d: Seq<Seq<Seq<char>>>,
    line: int,
    col: int,
    g: Seq<char>,
)
    requires
        0 <= line < d.len(),
        0 <= col <= d[line].len(),
    ensures
        removed(inserted(d, line, col, g), line, col) == d,
{
    assert(d[line].insert(col, g).remove(col) =~= d[line]);
    assert(removed(inserted(d, line, col, g), line, col) =~= d);
}

/// Walking back from the end of a text over characters that are not `.`
/// finds the same last `.` as in the text before them.
proof fn lemma_last_dot_prefix(s: Seq<char>, i: int)
    requires
        0 <= i <= s.len(),
        forall|k: int| i <= k < s.len() ==> s[k] != '.',
    ensures
        last_dot(s) == last_dot(s.take(i)),
    decreases s.len() - i,
{
    if i < s.len() {
        lemma_last_dot_prefix(s, i + 1);
        assert(s.take(i + 1).drop_last() =~= s.take(i));
    } else {
        assert(s.take(i) =~= s);
    }
}

/// The extension of a file name: what follows its last `.`, or nothing.
pub fn extension_string(name: &str) -> (r: String)
    ensures
        r@ == extension_of(name@),
{
    let n = name.unicode_len();
    let mut i = n;
    while i > 0 && name.get_char(i - 1) != '.'
        invariant
            i <= n == name@.len(),
            forall|k: int| i <= k < n ==> name@[k] != '.',
        decreases i,
    {
        i = i - 1;
    }
    proof {
        lemma_last_dot_prefix(name@, i as int);
        if i > 0 {
            assert(name@.take(i as int).last() == '.');
        } else {
            assert(name@.take(0) =~= Seq::<char>::empty());
        }
    }
    if i == 0 {
        String::new()
    } else {
        String::from_str(name.substring_char(i, n))
    }
}

/// Where a forward word motion from (`line`, `col`) lands.
pub open spec fn next_word_target(d: Seq<Seq<Seq<char>>>, line: int, col: int) -> (int, int) {
    if col >= d[line].len() {
        if line + 1 < d.len() {
            (line + 1, 0)
        } else {
            (line, d[line].len() as int)
        }
    } else {
        (line, next_stop(word_classes(d[line]), col))
    }
}

/// Where a backward word motion from (`line`, `col`) lands.
pub open spec fn prev_word_target(d: Seq<Seq<Seq<char>>>, line: int, col: int) -> (int, int) {
    if col == 0 {
        if line > 0 {
            (line - 1, d[line - 1].len() as int)
        } else {
            (line, 0)
        }
    } else {
        (line, prev_stop(word_classes(d[line]), col))
    }
}

/// A forward word motion inside a line, followed by a backward one from
/// where it landed, stays on the line and lands no later than the start of
/// the word the cursor was on; each motion moves the cursor, so alternating
/// them cannot go on in place.
pub proof fn lemma_word_motions_inverse_adjacent(d: Seq<Seq<Seq<char>>>, line: int, col: int)
    requires
        0 <= line < d.len(),
        0 <= col < d[line].len(),
    ensures
        next_word_target(d, line, col).0 == line,
        col < next_word_target(d, line, col).1 <= d[line].len(),
        prev_word_target(d, line, next_word_target(d, line, col).1).0 == line,
        prev_word_target(d, line, next_word_target(d, line, col).1).1 <= word_start(
            word_classes(d[line]),
            col,
        ) <= col,
        prev_word_target(d, line, next_word_target(d, line, col).1).1 < next_word_target(
            d,
            line,
            col,
        ).1,
{
    lemma_word_motion_round_trip(word_classes(d[line]), col);
}

/// The text buffer: lines of grapheme clusters, the file they belong to,
/// and one highlight cache entry per line.
pub struct Document {
    pub file_name: String,
    pub extension: String,
    pub lines: Vec<Line>,
    pub rich_lines: Vec<RichLine>,
    pub highlighter: Highlighter,
}

impl View for Document {
    type V = Seq<Seq<Seq<char>>>;

    open spec fn view(&self) -> Seq<Seq<Seq<char>>> {
        self.lines@.map_values(|l: Line| l@)
    }
}

impl Document {
    /// The cache entry of line `i` covers exactly the line's text.
    pub open spec fn entry_fresh(&self, i: int) -> bool {
        covered_text(self.rich_lines@[i].line@) == concat_all(self.lines@[i]@)
    }

    /// The cache entry of line `i` is either not computed yet or fresh.
    pub open spec fn entry_valid(&self, i: int) -> bool {
        self.rich_lines@[i].line@.len() == 0 || self.entry_fresh(i)
    }

    /// A document has at least one line, one cache entry per line, no stale
    /// entry, and only graphemes that may stand in a line.
    pub open spec fn wf(&self) -> bool {
        &&& self.lines@.len() >= 1
        &&& self.rich_lines@.len() == self.lines@.len()
        &&& forall|i: int| 0 <= i < self.lines@.len() ==> #[trigger] self.lines@[i].wf()
        &&& forall|i: int| 0 <= i < self.lines@.len() ==> #[trigger] self.entry_valid(i)
    }

    /// The file name and the highlighter are the same in both documents.
    pub open spec fn same_source(&self, other: &Document) -> bool {
        &&& self.file_name == other.file_name
        &&& self.extension == other.extension
        &&& self.highlighter == other.highlighter
    }

    /// A document for file `file_name` holding the lines of `content` (one
    /// empty line when it has none). No cache entry is computed yet.
    pub fn new(file_name: &str, content: &str) -> (r: Self)
        ensures
            r.wf(),
            r@ == loaded_lines(content@),
            r.file_name@ == file_name@,
            r.extension@ == extension_of(file_name@),
            forall|k: int| 0 <= k < r.rich_lines@.len() ==> (#[trigger] r.rich_lines@[k]).line@.len()
                == 0,
    {
        let texts = split_text_lines(content);
        let ghost tv = lines_of(content@);
        let mut lines: Vec<Line> = Vec::new();
        let mut rich_lines: Vec<RichLine> = Vec::new();
        let mut i: usize = 0;
        while i < texts.len()
            invariant
                i <= texts@.len(),
                views(texts@) == tv,
                forall|a: int, b: int|
                    0 <= a < texts@.len() && 0 <= b < texts@[a]@.len() ==> #[trigger] texts@[a]@[b]
                        != '\n',
                lines@.len() == i,
                rich_lines@.len() == i,
                forall|k: int| 0 <= k < i ==> (#[trigger] lines@[k])@ == graphemes_of(tv[k]),
                forall|k: int| 0 <= k < i ==> (#[trigger] lines@[k]).wf(),
                forall|k: int| 0 <= k < i ==> (#[trigger] rich_lines@[k]).line@.len() == 0,
            decreases texts@.len() - i,
        {
            let t = texts[i].as_str();
            assert(!t@.contains('\n')) by {
                if t@.contains('\n') {
                    let b = choose|b: int| 0 <= b < t@.len() && t@[b] == '\n';
                    assert(texts@[i as int]@[b] == '\n');
                }
            }
            lines.push(Line::from_text(t));
            rich_lines.push(RichLine::empty());
            i = i + 1;
        }
        if lines.len() == 0 {
            lines.push(Line::empty());
            rich_lines.push(RichLine::empty());
        }
        let r = Document {
            file_name: String::from_str(file_name),
            extension: extension_string(file_name),
            lines,
            rich_lines,
            highlighter: Highlighter::new(),
        };
        proof {
            assert(r@ =~= loaded_lines(content@));
            assert forall|k: int| 0 <= k < r.lines@.len() implies #[trigger] r.entry_valid(k) by {}
        }
        r
    }

    /// A document holds at most `usize::MAX` lines of at most `usize::MAX`
    /// graphemes each.
    pub proof fn lemma_sizes_fit(&self)
        ensures
            self@.len() <= usize::MAX,
            forall|i: int| 0 <= i < self@.len() ==> #[trigger] self@[i].len() <= usize::MAX,
    {
        assert(self@.len() == self.lines.len());
        assert forall|i: int| 0 <= i < self@.len() implies #[trigger] self@[i].len() <= usize::MAX by {
            crate::line::lemma_line_len_fits(&self.lines@[i]);
        }
    }

    /// The width of the line numbers: the digits of the line count.
    pub fn line_number_width(&self) -> (r: usize)
        ensures
            r == crate::viewport::digit_count(self@.len()),
    {
        crate::viewport::count_digits(self.lines.len())
    }

    /// The number of lines.
    pub fn n_lines(&self) -> (r: usize)
        ensures
            r == self@.len(),
    {
        self.lines.len()
    }

    /// The number of graphemes of line `line`.
    pub fn line_len(&self, line: usize) -> (r: usize)
        requires
            line < self@.len(),
        ensures
            r == self@[line as int].len(),
    {
        self.lines[line].len()
    }

    /// The text of line `line`.
    pub fn line_text(&self, line: usize) -> (r: String)
        requires
            line < self@.len(),
        ensures
            r@ == concat_all(self@[line as int]),
    {
        self.lines[line].text()
    }

    /// Recomputes the cache entry of line `line` from its current text.
    fn recalc_entry(&mut self, line: usize)
        requires
            line < old(self).lines@.len(),
            old(self).rich_lines@.len() == old(self).lines@.len(),
        ensures
            final(self).lines == old(self).lines,
            final(self).same_source(old(self)),
            final(self).rich_lines@.len() == old(self).rich_lines@.len(),
            final(self).entry_fresh(line as int),
            forall|k: int|
                0 <= k < final(self).rich_lines@.len() && k != line ==> final(self).rich_lines@[k]
                    == old(self).rich_lines@[k],
    {
        let text = self.lines[line].text();
        self.rich_lines[line].recalc(&self.highlighter, text.as_str(), self.extension.as_str());
    }

    /// Appends line `line` to the line before it, removes it together with
    /// its cache entry, and refreshes the entry of the line before. Nothing
    /// happens for the first line or a line that does not exist.
    pub fn join_lines(&mut self, line: usize)
        requires
            old(self).wf(),
        ensures
            final(self).wf(),
            final(self).same_source(old(self)),
            if 0 < line < old(self)@.len() {
                &&& final(self)@ == joined(old(self)@, line as int)
                &&& final(self).entry_fresh(line - 1)
                &&& forall|k: int|
                    0 <= k < line - 1 ==> final(self).rich_lines@[k] == old(self).rich_lines@[k]
                &&& forall|k: int|
                    line <= k < final(self)@.len() ==> final(self).rich_lines@[k]
                        == old(self).rich_lines@[k + 1]
            } else {
                *final(self) == *old(self)
            },
    {
        if line == 0 || line >= self.lines.len() {
            return;
        }
        let ghost before = *self;
        let current = self.lines.remove(line);
        self.lines[line - 1].append(current);
        self.rich_lines.remove(line);
        self.recalc_entry(line - 1);
        proof {
            assert(self@ =~= joined(before@, line as int));
            assert forall|i: int| 0 <= i < self.lines@.len() implies #[trigger] self.entry_valid(i) by {
                if i < line - 1 {
                    assert(before.entry_valid(i));
                } else if i >= line {
                    assert(before.entry_valid(i + 1));
                }
            }
            assert forall|i: int| 0 <= i < self.lines@.len() implies #[trigger] self.lines@[i].wf() by {
                if i < line - 1 {
                    assert(before.lines@[i].wf());
                } else if i >= line {
                    assert(before.lines@[i + 1].wf());
                } else {
                    let a = before.lines@[line - 1];
                    let b = before.lines@[line as int];
                    assert(a.wf());
                    assert(b.wf());
                    assert forall|j: int| 0 <= j < self.lines@[i]@.len() implies grapheme_ok(
                        #[trigger] self.lines@[i]@[j],
                    ) by {
                        if j < a@.len() {
                            assert(self.lines@[i]@[j] == a@[j]);
                        } else {
                            assert(self.lines@[i]@[j] == b@[j - a@.len()]);
                        }
                    }
                }
            }
        }
    }

    /// Cuts line `line` at column `col`: the graphemes from `col` on become
    /// a new line right after it (an empty one when `col` is the line's
    /// length). The cache gets an entry for the new line, and the entry of
    /// the cut line is refreshed when its text changed. Nothing happens
    /// when the line does not exist or `col` is past its end.
    pub fn newline(&mut self, line: usize, col: usize)
        requires
            old(self).wf(),
        ensures
            final(self).wf(),
            final(self).same_source(old(self)),
            if line < old(self)@.len() && col <= old(self)@[line as int].len() {
                &&& final(self)@ == split(old(self)@, line as int, col as int)
                &&& final(self).entry_fresh(line + 1)
                &&& if col == old(self)@[line as int].len() {
                    final(self).rich_lines@[line as int] == old(self).rich_lines@[line as int]
                } else {
                    final(self).entry_fresh(line as int)
                }
                &&& forall|k: int|
                    0 <= k < line ==> final(self).rich_lines@[k] == old(self).rich_lines@[k]
                &&& forall|k: int|
                    line + 1 < k < final(self)@.len() ==> final(self).rich_lines@[k]
                        == old(self).rich_lines@[k - 1]
            } else {
                *final(self) == *old(self)
            },
    {
        if line >= self.lines.len() || col > self.lines[line].len() {
            return;
        }
        let ghost before = *self;
        let at_end = col == self.lines[line].len();
        let tail = self.lines[line].split_off(col);
        let tail_text = tail.text();
        self.lines.insert(line + 1, tail);
        let entry = RichLine::new(&self.highlighter, tail_text.as_str(), self.extension.as_str());
        self.rich_lines.insert(line + 1, entry);
        if !at_end {
            self.recalc_entry(line);
        } else {
            assert(before.lines@[line as int]@.take(col as int) =~= before.lines@[line as int]@);
        }
        proof {
            assert(self@ =~= split(before@, line as int, col as int));
            assert forall|i: int| 0 <= i < self.lines@.len() implies #[trigger] self.entry_valid(i) by {
                if i < line {
                    assert(before.entry_valid(i));
                } else if i > line + 1 {
                    assert(before.entry_valid(i - 1));
                } else if i == line && at_end {
                    assert(before.entry_valid(i));
                }
            }
            assert forall|i: int| 0 <= i < self.lines@.len() implies #[trigger] self.lines@[i].wf() by {
                if i < line {
                    assert(before.lines@[i].wf());
                } else if i > line + 1 {
                    assert(before.lines@[i - 1].wf());
                } else {
                    let a = before.lines@[line as int];
                    assert(a.wf());
                    assert forall|j: int| 0 <= j < self.lines@[i]@.len() implies grapheme_ok(
                        #[trigger] self.lines@[i]@[j],
                    ) by {
                        if i == line {
                            assert(self.lines@[i]@[j] == a@[j]);
                        } else {
                            assert(self.lines@[i]@[j] == a@[j + col]);
                        }
                    }
                }
            }
        }
    }

    /// The position a forward word motion from (`line`, `col`) reaches: at
    /// or past the end of a line, the start of the next line (or the end of
    /// the last line); else the start of the next word on the same line, or
    /// its end.
    pub fn next_word(&self, line: usize, col: usize) -> (r: (usize, usize))
        requires
            self.wf(),
            line < self@.len(),
        ensures
            (r.0 as int, r.1 as int) == next_word_target(self@, line as int, col as int),
    {
        let len = self.lines[line].len();
        if col >= len {
            if line < self.lines.len() - 1 {
                return (line + 1, 0);
            }
            return (line, len);
        }
        let words = self.lines[line].word_classes();
        (line, next_word_col(&words, col))
    }

    /// The position a backward word motion from (`line`, `col`) reaches: at
    /// the start of a line, the end of the previous line (or the start of
    /// the first line); else the start of the word before the cursor.
    pub fn prev_word(&self, line: usize, col: usize) -> (r: (usize, usize))
        requires
            self.wf(),
            line < self@.len(),
            col <= self@[line as int].len(),
        ensures
            (r.0 as int, r.1 as int) == prev_word_target(self@, line as int, col as int),
    {
        if col == 0 {
            if line > 0 {
                return (line - 1, self.lines[line - 1].len());
            }
            return (line, 0);
        }
        let words = self.lines[line].word_classes();
        (line, prev_word_col(&words, col))
    }

    /// The whole text: the lines joined with one line terminator between
    /// each two, none after the last.
    pub fn contents(&self) -> (r: String)
        ensures
            r@ == join_with_newlines(line_texts(self@)),
    {
        let ghost texts = line_texts(self@);
        let mut r = String::new();
        let mut i: usize = 0;
        while i < self.lines.len()
            invariant
                i <= self.lines@.len(),
                texts == line_texts(self@),
                r@ == join_with_newlines(texts.take(i as int)),
            decreases self.lines@.len() - i,
        {
            if i > 0 {
                push_char(&mut r, '\n');
            }
            let t = self.lines[i].text();
            r.append(t.as_str());
            proof {
                let next = texts.take(i + 1);
                assert(next.drop_last() =~= texts.take(i as int));
                if i == 0 {
                    assert(r@ =~= next[0]);
                } else {
                    assert(r@ =~= join_with_newlines(next.drop_last()) + seq!['\n'] + next.last());
                }
            }
            i = i + 1;
        }
        assert(texts.take(i as int) =~= texts);
        r
    }

    /// Computes the cache entries not computed yet of lines
    /// `first .. first + count` (those that exist).
    pub fn refresh_highlights(&mut self, first: usize, count: usize)
        requires
            old(self).wf(),
        ensures
            final(self).wf(),
            final(self).same_source(old(self)),
            final(self).lines == old(self).lines,
            forall|k: int|
                first <= k < first + count && k < final(self)@.len() ==> final(self).entry_fresh(k),
            forall|k: int|
                0 <= k < final(self)@.len() && !(first <= k < first + count && old(self).rich_lines@[k].line@.len() == 0) ==> final(self).rich_lines@[k] == old(self).rich_lines@[k],
    {
        let end = if count > self.lines.len() - first.min(self.lines.len()) {
            self.lines.len()
        } else {
            first.min(self.lines.len()) + count
        };
        let mut i = first.min(self.lines.len());
        let ghost start = i;
        while i < end
            invariant
                start <= i <= end <= self.lines@.len(),
                start == first || start == self.lines@.len(),
                end == self.lines@.len() || end == first + count,
                self.wf(),
                self.same_source(old(self)),
                self.lines == old(self).lines,
                forall|k: int| start <= k < i ==> self.entry_fresh(k),
                forall|k: int|
                    0 <= k < self@.len() && !(start <= k < i && old(self).rich_lines@[k].line@.len()
                        == 0) ==> self.rich_lines@[k] == old(self).rich_lines@[k],
            decreases end - i,
        {
            if self.rich_lines[i].is_empty() {
                let ghost before = *self;
                self.recalc_entry(i);
                proof {
                    assert forall|k: int| 0 <= k < self.lines@.len() implies #[trigger] self.entry_valid(k) by {
                        if k != i {
                            assert(before.entry_valid(k));
                        }
                    }
                    assert forall|k: int| start <= k < i + 1 implies #[trigger] self.entry_fresh(k) by {
                        if k != i {
                            assert(before.entry_fresh(k));
                        }
                    }
                }
            } else {
                assert(self.entry_valid(i as int));
                assert(self.entry_fresh(i as int));
            }
            i = i + 1;
        }
    }

    /// Inserts the grapheme made of `c` before column `col` of line `line`
    /// and refreshes that line's cache entry. Nothing happens when the line
    /// does not exist, when `col` is past the end of the line, or when `c`
    /// is a line terminator.
    pub fn insert_char(&mut self, c: char, line: usize, col: usize)
        requires
            old(self).wf(),
        ensures
            final(self).wf(),
            final(self).same_source(old(self)),
            if line < old(self)@.len() && col <= old(self)@[line as int].len() && c != '\n' {
                &&& final(self)@ == inserted(old(self)@, line as int, col as int, seq![c])
                &&& final(self).entry_fresh(line as int)
                &&& forall|k: int|
                    0 <= k < final(self)@.len() && k != line ==> final(self).rich_lines@[k]
                        == old(self).rich_lines@[k]
            } else {
                *final(self) == *old(self)
            },
    {
        if line >= self.lines.len() || col > self.lines[line].len() || c == '\n' {
            return;
        }
        let mut g = String::new();
        push_char(&mut g, c);
        let ghost before = *self;
        self.lines[line].insert_grapheme(col, g);
        self.recalc_entry(line);
        proof {
            assert(self@ =~= inserted(before@, line as int, col as int, seq![c]));
            assert(self.lines@[line as int]@ == before.lines@[line as int]@.insert(col as int, seq![c]));
            assert forall|i: int| 0 <= i < self.lines@.len() implies #[trigger] self.entry_valid(i) by {
                if i != line {
                    assert(before.entry_valid(i));
                }
            }
            assert forall|i: int| 0 <= i < self.lines@.len() implies #[trigger] self.lines@[i].wf() by {
                if i == line {
                    assert(before.lines@[i].wf());
                    assert forall|j: int| 0 <= j < self.lines@[i]@.len() implies grapheme_ok(
                        #[trigger] self.lines@[i]@[j],
                    ) by {
                        if j < col {
                            assert(self.lines@[i]@[j] == before.lines@[i]@[j]);
                        } else if j > col {
                            assert(self.lines@[i]@[j] == before.lines@[i]@[j - 1]);
                        } else {
                            assert(self.lines@[i]@[j] =~= seq![c]);
                            assert(!seq![c].contains('\n')) by {
                                if seq![c].contains('\n') {
                                    let k = choose|k: int| 0 <= k < 1 && seq![c][k] == '\n';
                                    assert(k == 0);
                                }
                            }
                        }
                    }
                } else {
                    assert(before.lines@[i].wf());
                }
            }
        }
    }

    /// Removes the grapheme at column `col` of line `line` and refreshes that
    /// line's cache entry. Nothing happens when there is no grapheme there.
    pub fn remove_char(&mut self, line: usize, col: usize)
        requires
            old(self).wf(),
        ensures
            final(self).wf(),
            final(self).same_source(old(self)),
            if line < old(self)@.len() && col < old(self)@[line as int].len() {
                &&& final(self)@ == removed(old(self)@, line as int, col as int)
                &&& final(self).entry_fresh(line as int)
                &&& forall|k: int|
                    0 <= k < final(self)@.len() && k != line ==> final(self).rich_lines@[k]
                        == old(self).rich_lines@[k]
            } else {
                *final(self) == *old(self)
            },
    {
        if line >= self.lines.len() || col >= self.lines[line].len() {
            return;
        }
        let ghost before = *self;
        self.lines[line].remove_grapheme(col);
        self.recalc_entry(line);
        proof {
            assert(self@ =~= removed(before@, line as int, col as int));
            assert forall|i: int| 0 <= i < self.lines@.len() implies #[trigger] self.entry_valid(i) by {
                if i != line {
                    assert(before.entry_valid(i));
                }
            }
            assert forall|i: int| 0 <= i < self.lines@.len() implies #[trigger] self.lines@[i].wf() by {
                if i == line {
                    assert(before.lines@[i].wf());
                    assert forall|j: int| 0 <= j < self.lines@[i]@.len() implies grapheme_ok(
                        #[trigger] self.lines@[i]@[j],
                    ) by {
                        if j < col {
                            assert(self.lines@[i]@[j] == before.lines@[i]@[j]);
                        } else {
                            assert(self.lines@[i]@[j] == before.lines@[i]@[j + 1]);
                        }
                    }
                } else {
                    assert(before.lines@[i].wf());
                }
            }
        }
    }
}

} // verus!
