//! Plain-text output for pipes: rendered lines wrapped to a width by
//! display cells, never splitting a grapheme cluster, except the rows
//! (such as full diagram exports) that must keep their geometry.
use vstd::prelude::*;
use crate::text::{chars_of, display_width, grapheme_split, graphemes_of, unicode_width_of};

verus! {

/// Greedy wrapping of clusters into rows of at most `limit` cells: a
/// cluster that does not fit starts a new row, unless the row is empty.
pub open spec fn wrap_acc(gs: Seq<Seq<char>>, limit: usize, cur: Seq<char>, cur_w: usize, done: Seq<Seq<char>>) -> Seq<Seq<char>>
    decreases gs.len(),
{
    if gs.len() == 0 {
        done.push(cur)
    } else {
        let g = gs[0];
        let w = unicode_width_of(g);
        if cur_w + w > limit && cur.len() > 0 {
            wrap_acc(gs.drop_first(), limit, g, w, done.push(cur))
        } else {
            wrap_acc(gs.drop_first(), limit, cur + g, crate::width::sat_add(cur_w, w), done)
        }
    }
}

/// The rows a line wraps into at `width` cells.
pub open spec fn wrap_line(line: Seq<char>, width: usize) -> Seq<Seq<char>> {
    wrap_acc(grapheme_split(line), width, seq![], 0, seq![])
}

/// Rows joined with newlines, each ending in one.
pub open spec fn rows_text(rows: Seq<Seq<char>>) -> Seq<char>
    decreases rows.len(),
{
    if rows.len() == 0 {
        seq![]
    } else {
        rows_text(rows.drop_last()) + rows.last() + seq!['\n']
    }
}

/// Whether line `i` lies in one of the inclusive ranges.
pub open spec fn in_ranges(ranges: Seq<(usize, usize)>, i: int) -> bool {
    exists|k: int| 0 <= k < ranges.len() && (#[trigger] ranges[k]).0 <= i <= ranges[k].1
}

/// The text of the lines: those in `unwrapped` whole, the others wrapped.
pub open spec fn written(lines: Seq<Seq<char>>, width: usize, unwrapped: Seq<(usize, usize)>) -> Seq<char>
    decreases lines.len(),
{
    if lines.len() == 0 {
        seq![]
    } else {
        let i = lines.len() - 1;
        written(lines.drop_last(), width, unwrapped) + if in_ranges(unwrapped, i) {
            lines.last() + seq!['\n']
        } else {
            rows_text(wrap_line(lines.last(), width))
        }
    }
}

fn in_any_range(ranges: &Vec<(usize, usize)>, i: usize) -> (r: bool)
    ensures
        r == in_ranges(ranges@, i as int),
{
    let mut k: usize = 0;
    while k < ranges.len()
        invariant
            k <= ranges@.len(),
            forall|j: int| 0 <= j < k ==> !((#[trigger] ranges@[j]).0 <= i <= ranges@[j].1),
        decreases ranges@.len() - k,
    {
        if ranges[k].0 <= i && i <= ranges[k].1 {
            return true;
        }
        k = k + 1;
    }
    false
}

/// Appends the wrapped rows of one line, each with its newline.
fn push_wrapped(out: &mut Vec<char>, line: &str, width: usize)
    ensures
        final(out)@ == old(out)@ + rows_text(wrap_line(line@, width)),
{
    let gs = graphemes_of(line);
    let ghost split = grapheme_split(line@);
    let mut cur: Vec<char> = Vec::new();
    let mut cur_w: usize = 0;
    let ghost mut done: Seq<Seq<char>> = seq![];
    let mut i: usize = 0;
    assert(split.skip(0) =~= split);
    while i < gs.len()
        invariant
            gs@.len() == split.len(),
            forall|k: int| 0 <= k < gs@.len() ==> #[trigger] gs@[k]@ == split[k],
            i <= gs@.len(),
            wrap_line(line@, width) == wrap_acc(split.skip(i as int), width, cur@, cur_w, done),
            out@ == old(out)@ + rows_text(done),
        decreases gs@.len() - i,
    {
        let ghost rest = split.skip(i as int);
        assert(rest[0] == split[i as int]);
        assert(rest.drop_first() =~= split.skip(i + 1));
        let g = chars_of(gs[i].as_str());
        let w = display_width(gs[i].as_str());
        let fits = cur_w <= width && w <= width - cur_w;
        if !fits && cur.len() > 0 {
            let ghost prev = done;
            proof {
                assert(done.push(cur@).drop_last() =~= done);
                assert(rows_text(done.push(cur@)) =~= rows_text(done) + cur@ + seq!['\n']);
                done = done.push(cur@);
            }
            let mut k: usize = 0;
            while k < cur.len()
                invariant
                    k <= cur@.len(),
                    out@ == old(out)@ + rows_text(prev) + cur@.take(k as int),
                decreases cur@.len() - k,
            {
                out.push(cur[k]);
                assert(cur@.take(k + 1) =~= cur@.take(k as int).push(cur@[k as int]));
                k = k + 1;
            }
            out.push('\n');
            assert(cur@.take(cur@.len() as int) =~= cur@);
            assert(out@ =~= old(out)@ + rows_text(done));
            cur = g;
            cur_w = w;
        } else {
            let mut k: usize = 0;
            let ghost before = cur@;
            while k < g.len()
                invariant
                    k <= g@.len(),
                    cur@ == before + g@.take(k as int),
                decreases g@.len() - k,
            {
                cur.push(g[k]);
                assert(g@.take(k + 1) =~= g@.take(k as int).push(g@[k as int]));
                k = k + 1;
            }
            assert(g@.take(g@.len() as int) =~= g@);
            cur_w = if cur_w <= usize::MAX - w {
                cur_w + w
            } else {
                usize::MAX
            };
        }
        i = i + 1;
    }
    proof {
        assert(split.skip(i as int) =~= seq![]);
        assert(done.push(cur@).drop_last() =~= done);
        assert(rows_text(done.push(cur@)) =~= rows_text(done) + cur@ + seq!['\n']);
    }
    let mut k: usize = 0;
    while k < cur.len()
        invariant
            k <= cur@.len(),
            out@ == old(out)@ + rows_text(done) + cur@.take(k as int),
        decreases cur@.len() - k,
    {
        out.push(cur[k]);
        assert(cur@.take(k + 1) =~= cur@.take(k as int).push(cur@[k as int]));
        k = k + 1;
    }
    out.push('\n');
    assert(cur@.take(cur@.len() as int) =~= cur@);
}

/// The rows a line wraps into at `width` cells.
pub fn wrap_rows(line: &str, width: usize) -> (r: Vec<String>)
    ensures
        crate::text::strings_view(r@) == wrap_line(line@, width),
{
    let gs = graphemes_of(line);
    let ghost split = grapheme_split(line@);
    let mut cur: Vec<char> = Vec::new();
    let mut cur_w: usize = 0;
    let mut rows: Vec<String> = Vec::new();
    let ghost mut done: Seq<Seq<char>> = seq![];
    let mut i: usize = 0;
    assert(split.skip(0) =~= split);
    while i < gs.len()
        invariant
            gs@.len() == split.len(),
            forall|k: int| 0 <= k < gs@.len() ==> #[trigger] gs@[k]@ == split[k],
            i <= gs@.len(),
            wrap_line(line@, width) == wrap_acc(split.skip(i as int), width, cur@, cur_w, done),
            crate::text::strings_view(rows@) == done,
        decreases gs@.len() - i,
    {
        let ghost rest = split.skip(i as int);
        assert(rest[0] == split[i as int]);
        assert(rest.drop_first() =~= split.skip(i + 1));
        let g = chars_of(gs[i].as_str());
        let w = display_width(gs[i].as_str());
        let fits = cur_w <= width && w <= width - cur_w;
        if !fits && cur.len() > 0 {
            let row = crate::text::string_from_chars(cur.as_slice());
            let ghost before = rows@;
            rows.push(row);
            proof {
                done = done.push(cur@);
                assert(crate::text::strings_view(rows@) =~= crate::text::strings_view(before).push(cur@));
            }
            cur = g;
            cur_w = w;
        } else {
            let mut k: usize = 0;
            let ghost start = cur@;
            while k < g.len()
                invariant
                    k <= g@.len(),
                    cur@ == start + g@.take(k as int),
                decreases g@.len() - k,
            {
                cur.push(g[k]);
                assert(g@.take(k + 1) =~= g@.take(k as int).push(g@[k as int]));
                k = k + 1;
            }
            assert(g@.take(g@.len() as int) =~= g@);
            cur_w = if cur_w <= usize::MAX - w {
                cur_w + w
            } else {
                usize::MAX
            };
        }
        i = i + 1;
    }
    assert(split.skip(i as int) =~= seq![]);
    let row = crate::text::string_from_chars(cur.as_slice());
    let ghost before = rows@;
    rows.push(row);
    assert(crate::text::strings_view(rows@) =~= crate::text::strings_view(before).push(cur@));
    rows
}

/// The plain text of rendered lines for a pipe: each line wrapped to
/// `width` cells, except those in the inclusive `unwrapped` ranges, which
/// are written whole. Every row ends in a newline.
pub fn write_lines_with_unwrapped(lines: &Vec<String>, width: usize, unwrapped: &Vec<(usize, usize)>) -> (r: String)
    ensures
        r@ == written(crate::text::strings_view(lines@), width, unwrapped@),
{
    let ghost view = crate::text::strings_view(lines@);
    let mut out: Vec<char> = Vec::new();
    let mut i: usize = 0;
    while i < lines.len()
        invariant
            view == crate::text::strings_view(lines@),
            i <= lines@.len(),
            out@ == written(view.take(i as int), width, unwrapped@),
        decreases lines@.len() - i,
    {
        let ghost before = out@;
        proof {
            let t = view.take(i + 1);
            assert(t.drop_last() =~= view.take(i as int));
            assert(t.last() == lines@[i as int]@);
        }
        if in_any_range(unwrapped, i) {
            let cs = chars_of(lines[i].as_str());
            let mut k: usize = 0;
            while k < cs.len()
                invariant
                    k <= cs@.len(),
                    out@ == before + cs@.take(k as int),
                decreases cs@.len() - k,
            {
                out.push(cs[k]);
                assert(cs@.take(k + 1) =~= cs@.take(k as int).push(cs@[k as int]));
                k = k + 1;
            }
            out.push('\n');
            assert(cs@.take(cs@.len() as int) =~= cs@);
            assert(out@ =~= before + (cs@ + seq!['\n']));
        } else {
            push_wrapped(&mut out, lines[i].as_str(), width);
        }
        i = i + 1;
    }
    assert(view.take(view.len() as int) =~= view);
    crate::text::string_from_chars(out.as_slice())
}

} // verus!
