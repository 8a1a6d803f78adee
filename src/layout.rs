use vstd::prelude::*;
use crate::highlighting::HighlightedSegment;
use crate::text::{display_width, graphemes_of, split_graphemes, views, width_of};

verus! {

/// A grapheme of a highlight entry, tagged with the index of its segment.
pub open spec fn tag(i: usize, gs: Seq<Seq<char>>) -> Seq<(usize, Seq<char>)> {
    gs.map_values(|g: Seq<char>| (i, g))
}

/// Every grapheme of a highlight entry, in order, each with the index of
/// the segment it belongs to.
pub open spec fn cells(segs: Seq<HighlightedSegment>) -> Seq<(usize, Seq<char>)>
    decreases segs.len(),
{
    if segs.len() == 0 {
        Seq::empty()
    } else {
        cells(segs.drop_last()) + tag((segs.len() - 1) as usize, graphemes_of(segs.last().content@))
    }
}

/// Total display width of a sequence of cells.
pub open spec fn cells_width(cs: Seq<(usize, Seq<char>)>) -> int
    decreases cs.len(),
{
    if cs.len() == 0 {
        0
    } else {
        cells_width(cs.drop_last()) + width_of(cs.last().1)
    }
}

/// The cells from index `left` on (none when there are no more).
pub open spec fn from_column(cs: Seq<(usize, Seq<char>)>, left: int) -> Seq<(usize, Seq<char>)> {
    if left < cs.len() {
        cs.skip(left)
    } else {
        Seq::empty()
    }
}

/// The view of a list of tagged graphemes.
pub open spec fn cell_views(v: Seq<(usize, String)>) -> Seq<(usize, Seq<char>)> {
    v.map_values(|c: (usize, String)| (c.0, c.1@))
}

/// The sum of a sequence of widths.
pub open spec fn total(ws: Seq<usize>) -> int
    decreases ws.len(),
{
    if ws.len() == 0 {
        0
    } else {
        total(ws.drop_last()) + ws.last()
    }
}

/// The widths from index `left` on (none when there are no more).
pub open spec fn widths_from(ws: Seq<usize>, left: int) -> Seq<usize> {
    if left < ws.len() {
        ws.skip(left)
    } else {
        Seq::empty()
    }
}

/// Every grapheme of a highlight entry, each with the index of its segment.
pub fn entry_cells(segments: &Vec<HighlightedSegment>) -> (r: Vec<(usize, String)>)
    ensures
        cell_views(r@) == cells(segments@),
{
    let mut out: Vec<(usize, String)> = Vec::new();
    let mut si: usize = 0;
    while si < segments.len()
        invariant
            si <= segments@.len(),
            cell_views(out@) == cells(segments@.take(si as int)),
        decreases segments@.len() - si,
    {
        let gs = split_graphemes(segments[si].content.as_str());
        let ghost done = out@;
        let mut gi: usize = 0;
        while gi < gs.len()
            invariant
                si < segments@.len(),
                gi <= gs@.len(),
                cell_views(done) == cells(segments@.take(si as int)),
                cell_views(out@) == cell_views(done) + tag(si, views(gs@)).take(gi as int),
            decreases gs@.len() - gi,
        {
            let ghost before = out@;
            out.push((si, gs[gi].clone()));
            proof {
                assert(cell_views(out@) =~= cell_views(before).push((si, gs@[gi as int]@)));
                assert(tag(si, views(gs@)).take(gi + 1) =~= tag(si, views(gs@)).take(gi as int).push(
                    (si, gs@[gi as int]@),
                ));
                assert(cell_views(out@) =~= cell_views(done) + tag(si, views(gs@)).take(gi + 1));
            }
            gi = gi + 1;
        }
        proof {
            assert(tag(si, views(gs@)).take(gi as int) =~= tag(si, views(gs@)));
            assert(segments@.take(si + 1).drop_last() =~= segments@.take(si as int));
        }
        si = si + 1;
    }
    assert(segments@.take(si as int) =~= segments@);
    out
}

/// The display width of each cell.
pub fn cell_widths(cs: &Vec<(usize, String)>) -> (r: Vec<usize>)
    ensures
        r@.len() == cs@.len(),
        forall|i: int| 0 <= i < cs@.len() ==> r@[i] == width_of(#[trigger] cs@[i].1@),
{
    let mut r: Vec<usize> = Vec::new();
    let mut i: usize = 0;
    while i < cs.len()
        invariant
            i <= cs@.len(),
            r@.len() == i,
            forall|k: int| 0 <= k < i ==> r@[k] == width_of(#[trigger] cs@[k].1@),
        decreases cs@.len() - i,
    {
        r.push(display_width(cs[i].1.as_str()));
        i = i + 1;
    }
    r
}

/// How many cells, from index `left` on, fit side by side within
/// `available_width` columns, given the width of each cell: the longest run
/// whose widths add up to at most `available_width`.
pub fn fitting_count(widths: &Vec<usize>, left: usize, available_width: usize) -> (n: usize)
    ensures
        n <= widths_from(widths@, left as int).len(),
        total(widths_from(widths@, left as int).take(n as int)) <= available_width,
        n == widths_from(widths@, left as int).len() || total(
            widths_from(widths@, left as int).take(n + 1 as int),
        ) > available_width,
{
    if left >= widths.len() {
        return 0;
    }
    let ghost vis = widths_from(widths@, left as int);
    let mut used: usize = 0;
    let mut n: usize = 0;
    while n < widths.len() - left
        invariant
            left < widths@.len(),
            vis == widths@.skip(left as int),
            n <= vis.len(),
            used == total(vis.take(n as int)),
            used <= available_width,
        decreases vis.len() - n,
    {
        let w = widths[left + n];
        proof {
            assert(vis.take(n + 1).drop_last() =~= vis.take(n as int));
            assert(vis.take(n + 1).last() == w);
        }
        if w > available_width - used {
            return n;
        }
        used = used + w;
        n = n + 1;
    }
    n
}

/// The total width of cells is the total of their widths.
proof fn lemma_cells_width_total(cs: Seq<(usize, Seq<char>)>, ws: Seq<usize>)
    requires
        ws.len() == cs.len(),
        forall|i: int| 0 <= i < cs.len() ==> ws[i] == width_of(#[trigger] cs[i].1),
    ensures
        cells_width(cs) == total(ws),
    decreases cs.len(),
{
    if cs.len() > 0 {
        lemma_cells_width_total(cs.drop_last(), ws.drop_last());
    }
}

/// The part of a line that fits on screen: its graphemes from grapheme
/// column `left_offset` on, as long as their total display width stays
/// within `available_width`, each with the index of its highlight segment.
pub fn visible_cells(
    segments: &Vec<HighlightedSegment>,
    left_offset: usize,
    available_width: usize,
) -> (r: Vec<(usize, String)>)
    ensures
        cell_views(r@) == from_column(cells(segments@), left_offset as int).take(r@.len() as int),
        cells_width(cell_views(r@)) <= available_width,
        r@.len() == from_column(cells(segments@), left_offset as int).len() || cells_width(
            from_column(cells(segments@), left_offset as int).take(r@.len() + 1 as int),
        ) > available_width,
{
    let all = entry_cells(segments);
    let widths = cell_widths(&all);
    let n = fitting_count(&widths, left_offset, available_width);
    let ghost vis = from_column(cell_views(all@), left_offset as int);
    let ghost wvis = widths_from(widths@, left_offset as int);
    let cell_count = all.len();
    let mut out: Vec<(usize, String)> = Vec::new();
    let mut k: usize = 0;
    while k < n
        invariant
            cell_count == all@.len(),
            k <= n <= wvis.len(),
            wvis.len() == vis.len(),
            vis == from_column(cell_views(all@), left_offset as int),
            wvis == widths_from(widths@, left_offset as int),
            widths@.len() == all@.len(),
            n > 0 ==> left_offset + n <= all@.len(),
            cell_views(out@) == vis.take(k as int),
        decreases n - k,
    {
        let ghost before = out@;
        let c = &all[left_offset + k];
        out.push((c.0, c.1.clone()));
        proof {
            assert(vis[k as int] == cell_views(all@)[left_offset + k]);
            assert(cell_views(out@) =~= cell_views(before).push(vis[k as int]));
            assert(vis.take(k + 1) =~= vis.take(k as int).push(vis[k as int]));
        }
        k = k + 1;
    }
    proof {
        let m = n as int;
        assert forall|i: int| 0 <= i < vis.len() implies wvis[i] == width_of(#[trigger] vis[i].1) by {
            assert(vis[i] == cell_views(all@)[left_offset + i]);
        }
        lemma_cells_width_total(vis.take(m), wvis.take(m));
        if m < vis.len() {
            lemma_cells_width_total(vis.take(m + 1), wvis.take(m + 1));
        }
    }
    out
}

} // verus!
