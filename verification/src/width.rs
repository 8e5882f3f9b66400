//! Display-cell geometry: clipping a string to a window of terminal columns
//! without splitting a grapheme cluster.
use vstd::prelude::*;
use crate::text::{chars_of, display_width, grapheme_split, graphemes_of, push_char, unicode_width_of};

verus! {

/// C0 and C1 control characters.
pub open spec fn is_control_char(c: char) -> bool {
    (c as u32) < 0x20 || (0x7f <= (c as u32) && (c as u32) < 0xa0)
}

pub open spec fn is_tab_cluster(g: Seq<char>) -> bool {
    g.len() == 1 && g[0] == '\t'
}

pub open spec fn is_control_cluster(g: Seq<char>) -> bool {
    g.len() > 0 && is_control_char(g[0])
}

/// Columns a cluster occupies when it starts at column `col`: a tab runs to
/// the next multiple of four, other control clusters take no space.
pub open spec fn cluster_cells(g: Seq<char>, col: usize) -> usize {
    if is_tab_cluster(g) {
        (4 - col % 4) as usize
    } else if is_control_cluster(g) {
        0
    } else {
        unicode_width_of(g)
    }
}

pub open spec fn sat_add(a: usize, b: usize) -> usize {
    if a + b > usize::MAX {
        usize::MAX
    } else {
        (a + b) as usize
    }
}

/// Number of columns that `[lo, hi)` shares with `[start, end)`.
pub open spec fn overlap(lo: int, hi: int, start: int, end: int) -> nat {
    let a = if lo > start { lo } else { start };
    let b = if hi < end { hi } else { end };
    if b > a {
        (b - a) as nat
    } else {
        0
    }
}

pub open spec fn spaces(n: nat) -> Seq<char> {
    Seq::new(n, |i: int| ' ')
}

/// What one cluster at column `col` contributes to the window `[start, end)`:
/// the cluster itself when it lies wholly inside, blanks for the columns of a
/// tab or of a wide glyph cut by the window edge, nothing for control text.
pub open spec fn cluster_piece(g: Seq<char>, col: usize, start: usize, end: usize) -> Seq<char> {
    let w = cluster_cells(g, col);
    if w == 0 {
        if is_control_cluster(g) || col < start || col >= end {
            seq![]
        } else {
            g
        }
    } else if !is_tab_cluster(g) && start <= col && col + w <= end {
        g
    } else {
        spaces(overlap(col as int, col + w, start as int, end as int))
    }
}

pub open spec fn slice_clusters(gs: Seq<Seq<char>>, col: usize, start: usize, end: usize) -> Seq<
    char,
>
    decreases gs.len(),
{
    if gs.len() == 0 {
        seq![]
    } else {
        cluster_piece(gs[0], col, start, end) + slice_clusters(
            gs.drop_first(),
            sat_add(col, cluster_cells(gs[0], col)),
            start,
            end,
        )
    }
}

/// The text shown in display columns `[start, end)` of `s`.
pub open spec fn slice_columns_spec(s: Seq<char>, start: usize, end: usize) -> Seq<char> {
    slice_clusters(grapheme_split(s), 0, start, end)
}

fn control_cluster(g: &[char]) -> (r: bool)
    ensures
        r == is_control_cluster(g@),
{
    g.len() > 0 && ((g[0] as u32) < 0x20 || (0x7f <= (g[0] as u32) && (g[0] as u32) < 0xa0))
}

fn tab_cluster(g: &[char]) -> (r: bool)
    ensures
        r == is_tab_cluster(g@),
{
    g.len() == 1 && g[0] == '\t'
}

fn push_spaces(out: &mut String, n: usize)
    ensures
        final(out)@ == old(out)@ + spaces(n as nat),
{
    let mut i: usize = 0;
    while i < n
        invariant
            i <= n,
            out@ == old(out)@ + spaces(i as nat),
        decreases n - i,
    {
        push_char(out, ' ');
        assert(old(out)@ + spaces(i as nat) + seq![' '] =~= old(out)@ + spaces((i + 1) as nat));
        i = i + 1;
    }
}

fn push_chars(out: &mut String, v: &[char])
    ensures
        final(out)@ == old(out)@ + v@,
{
    let mut i: usize = 0;
    while i < v.len()
        invariant
            i <= v@.len(),
            out@ == old(out)@ + v@.take(i as int),
        decreases v@.len() - i,
    {
        push_char(out, v[i]);
        assert(old(out)@ + v@.take(i as int) + seq![v@[i as int]] =~= old(out)@ + v@.take(
            i + 1,
        ));
        i = i + 1;
    }
    assert(v@.take(v@.len() as int) =~= v@);
}

/// Clips `text` to display columns `[start, end)`. Grapheme clusters are
/// never split: a wide glyph cut by either edge becomes blanks for its
/// visible columns, tabs become blanks up to the next multiple of four, and
/// other control characters are dropped.
pub fn slice_display_columns(text: &str, start: usize, end: usize) -> (r: String)
    ensures
        r@ == slice_columns_spec(text@, start, end),
{
    let gs = graphemes_of(text);
    let ghost split = grapheme_split(text@);
    let mut out = String::new();
    let mut col: usize = 0;
    let mut i: usize = 0;
    assert(split.skip(0) =~= split);
    while i < gs.len()
        invariant
            gs@.len() == split.len(),
            forall|k: int| 0 <= k < gs@.len() ==> #[trigger] gs@[k]@ == split[k],
            i <= gs@.len(),
            slice_clusters(split, 0, start, end) == out@ + slice_clusters(
                split.skip(i as int),
                col,
                start,
                end,
            ),
        decreases gs@.len() - i,
    {
        let g = chars_of(gs[i].as_str());
        assert(g@ == split[i as int]);
        let ghost rest = split.skip(i as int);
        assert(rest[0] == split[i as int]);
        assert(rest.drop_first() =~= split.skip(i + 1));
        let w: usize = if tab_cluster(g.as_slice()) {
            4 - col % 4
        } else if control_cluster(g.as_slice()) {
            0
        } else {
            display_width(gs[i].as_str())
        };
        assert(w == cluster_cells(g@, col));
        if w == 0 {
            if !control_cluster(g.as_slice()) && col >= start && col < end {
                push_chars(&mut out, g.as_slice());
            }
        } else if !tab_cluster(g.as_slice()) && start <= col && w <= end && col <= end - w {
            push_chars(&mut out, g.as_slice());
        } else {
            let lo = if col > start {
                col
            } else {
                start
            };
            let hi_full: usize = if col <= usize::MAX - w {
                col + w
            } else {
                usize::MAX
            };
            let hi = if hi_full < end {
                hi_full
            } else {
                end
            };
            let n: usize = if hi > lo {
                hi - lo
            } else {
                0
            };
            push_spaces(&mut out, n);
        }
        col = if col <= usize::MAX - w {
            col + w
        } else {
            usize::MAX
        };
        i = i + 1;
    }
    out
}

} // verus!
