//! Rendered lines as the texts of their spans, and the bookkeeping done on
//! them: which lines start a new logical line (after wrapping, a
//! continuation row shares its paragraph's number, while frame edges, code
//! gutters and blank lines count on their own; in tables every border and
//! the row after one count), and the blank gaps dropped before a block.
use vstd::prelude::*;
use crate::document::LineMapState;
use crate::numbers::is_digit;
use crate::text::{chars_of, join_strings, join_spec, strings_view};
use crate::document::{blockquote_blank, is_blockquote_blank_text, BLOCKQUOTE_MARKER};

verus! {

/// A rendered line, as the texts of its spans.
pub open spec fn line_view(spans: Vec<String>) -> Seq<Seq<char>> {
    strings_view(spans@)
}

/// Rendered lines, as the texts of their spans.
pub open spec fn lines_view(lines: Seq<Vec<String>>) -> Seq<Seq<Seq<char>>> {
    lines.map_values(|l: Vec<String>| line_view(l))
}

/// How many of the flags are set.
pub open spec fn count_new(flags: Seq<bool>) -> nat
    decreases flags.len(),
{
    if flags.len() == 0 {
        0
    } else {
        count_new(flags.drop_last()) + if flags.last() { 1nat } else { 0nat }
    }
}

/// The logical numbers recorded for lines whose flags say whether each
/// starts a new logical line, counting on from `l0`.
pub open spec fn numbers_after(l0: usize, flags: Seq<bool>) -> Seq<usize> {
    Seq::new(flags.len(), |k: int| (l0 + count_new(flags.take(k + 1))) as usize)
}

/// A line with no text: no spans, or one empty span.
pub open spec fn is_empty_line_spec(spans: Seq<Seq<char>>) -> bool {
    spans.len() == 0 || (spans.len() == 1 && spans[0].len() == 0)
}

/// A span that belongs to a frame: a top or bottom edge, a numbered gutter
/// or a bare code gutter.
pub open spec fn frame_span(c: Seq<char>) -> bool {
    ||| c.len() > 0 && (c[0] == '┌' || c[0] == '└' || c[0] == '╔' || c[0] == '╚')
    ||| c.len() > 0 && c[0] == '│' && c.last() == '│' && exists|k: int| 0 <= k < c.len() && is_digit(#[trigger] c[k])
    ||| c == "│"@
}

/// A span that is a table border.
pub open spec fn border_span(c: Seq<char>) -> bool {
    c.len() > 0 && (c[0] == '┌' || c[0] == '├' || c[0] == '╞' || c[0] == '└')
}

/// Whether wrapped line `i` starts a logical line: the first line of the
/// block (`from`), a blank line or a line with a frame span.
pub open spec fn wrapped_is_new(spans: Seq<Seq<char>>, i: int, from: int) -> bool {
    i == from || is_empty_line_spec(spans) || exists|s: int| 0 <= s < spans.len() && frame_span(#[trigger] spans[s])
}

pub open spec fn is_border(spans: Seq<Seq<char>>) -> bool {
    exists|s: int| 0 <= s < spans.len() && border_span(#[trigger] spans[s])
}

/// The flags of wrapped lines `[start, end)`.
pub open spec fn wrapped_flags(lines: Seq<Seq<Seq<char>>>, start: int, end: int, from: int) -> Seq<bool> {
    Seq::new((end - start) as nat, |k: int| wrapped_is_new(lines[start + k], start + k, from))
}

/// The flags of table lines `[start, end)`: a border, a blank line, or the
/// line after a border (the first line counts as after one).
pub open spec fn table_flags(lines: Seq<Seq<Seq<char>>>, start: int, end: int) -> Seq<bool> {
    Seq::new(
        (end - start) as nat,
        |k: int| is_border(lines[start + k]) || is_empty_line_spec(lines[start + k]) || k == 0 || is_border(lines[start + k - 1]),
    )
}

proof fn lemma_count_new_le(flags: Seq<bool>)
    ensures
        count_new(flags) <= flags.len(),
    decreases flags.len(),
{
    if flags.len() > 0 {
        lemma_count_new_le(flags.drop_last());
    }
}

fn char_is_digit(c: char) -> (r: bool)
    ensures
        r == is_digit(c),
{
    '0' <= c && c <= '9'
}

/// Whether a span belongs to a frame.
pub fn is_frame_span(text: &str) -> (r: bool)
    ensures
        r == frame_span(text@),
{
    let c = chars_of(text);
    let n = c.len();
    proof {
        reveal_strlit("│");
    }
    if n == 0 {
        return false;
    }
    if c[0] == '┌' || c[0] == '└' || c[0] == '╔' || c[0] == '╚' {
        return true;
    }
    if c[0] == '│' && c[n - 1] == '│' {
        let mut k: usize = 0;
        while k < n
            invariant
                n == c@.len(),
                c@ == text@,
                n > 0,
                c@[0] == '│',
                c@[n - 1] == '│',
                k <= n,
                forall|j: int| 0 <= j < k ==> !is_digit(#[trigger] c@[j]),
            decreases n - k,
        {
            if char_is_digit(c[k]) {
                assert(is_digit(text@[k as int]));
                assert(text@.last() == c@[n - 1]);
                return true;
            }
            k = k + 1;
        }
    }
    let r = n == 1 && c[0] == '│';
    proof {
        if r {
            assert(c@ =~= "│"@) by {
                reveal_strlit("│");
            }
        } else {
            reveal_strlit("│");
            assert(c@ != "│"@ || c@.len() == 1);
        }
    }
    r
}

/// Whether a span is a table border.
pub fn is_border_span(text: &str) -> (r: bool)
    ensures
        r == border_span(text@),
{
    let c = chars_of(text);
    c.len() > 0 && (c[0] == '┌' || c[0] == '├' || c[0] == '╞' || c[0] == '└')
}

fn line_is_empty(spans: &Vec<String>) -> (r: bool)
    ensures
        r == is_empty_line_spec(line_view(*spans)),
{
    spans.len() == 0 || (spans.len() == 1 && spans[0].as_str().unicode_len() == 0)
}

fn has_frame_span(spans: &Vec<String>) -> (r: bool)
    ensures
        r == exists|s: int| 0 <= s < line_view(*spans).len() && frame_span(#[trigger] line_view(*spans)[s]),
{
    let ghost v = line_view(*spans);
    let mut s: usize = 0;
    while s < spans.len()
        invariant
            v == line_view(*spans),
            s <= spans@.len(),
            forall|j: int| 0 <= j < s ==> !frame_span(#[trigger] v[j]),
        decreases spans@.len() - s,
    {
        if is_frame_span(spans[s].as_str()) {
            assert(frame_span(v[s as int]));
            return true;
        }
        s = s + 1;
    }
    false
}

fn has_border_span(spans: &Vec<String>) -> (r: bool)
    ensures
        r == is_border(line_view(*spans)),
{
    let ghost v = line_view(*spans);
    let mut s: usize = 0;
    while s < spans.len()
        invariant
            v == line_view(*spans),
            s <= spans@.len(),
            forall|j: int| 0 <= j < s ==> !border_span(#[trigger] v[j]),
        decreases spans@.len() - s,
    {
        if is_border_span(spans[s].as_str()) {
            assert(border_span(v[s as int]));
            return true;
        }
        s = s + 1;
    }
    false
}

impl LineMapState {
    /// Records one line per flag; a set flag starts a new logical line.
    pub fn push_flags(&mut self, flags: &Vec<bool>)
        requires
            old(self).wf(),
            old(self).logical + flags@.len() <= usize::MAX,
        ensures
            final(self).wf(),
            final(self).logical == old(self).logical + count_new(flags@),
            final(self).line_number_map@ == old(self).line_number_map@ + numbers_after(old(self).logical, flags@),
            final(self).source_line_map@ == old(self).source_line_map@ + Seq::new(
                flags@.len(),
                |k: int| old(self).current_src_line,
            ),
            final(self).current_src_line == old(self).current_src_line,
    {
        let ghost l0 = self.logical;
        let mut i: usize = 0;
        assert(flags@.take(0) =~= Seq::<bool>::empty());
        assert(self.line_number_map@ =~= old(self).line_number_map@ + numbers_after(l0, flags@.take(0)));
        assert(self.source_line_map@ =~= old(self).source_line_map@ + Seq::new(0, |k: int| old(self).current_src_line));
        while i < flags.len()
            invariant
                self.wf(),
                l0 == old(self).logical,
                l0 + flags@.len() <= usize::MAX,
                i <= flags@.len(),
                self.logical == l0 + count_new(flags@.take(i as int)),
                self.line_number_map@ == old(self).line_number_map@ + numbers_after(l0, flags@.take(i as int)),
                self.source_line_map@ == old(self).source_line_map@ + Seq::new(
                    i as nat,
                    |k: int| old(self).current_src_line,
                ),
                self.current_src_line == old(self).current_src_line,
            decreases flags@.len() - i,
        {
            proof {
                lemma_count_new_le(flags@.take(i as int));
                assert(flags@.take(i + 1).drop_last() =~= flags@.take(i as int));
            }
            self.push(flags[i]);
            proof {
                let t = flags@.take(i + 1);
                assert forall|k: int| 0 <= k < i implies #[trigger] t.take(k + 1) == flags@.take(i as int).take(k + 1) by {
                    assert(t.take(k + 1) =~= flags@.take(i as int).take(k + 1));
                }
                assert(t.take(i + 1) =~= t);
                assert(numbers_after(l0, t) =~= numbers_after(l0, flags@.take(i as int)).push(self.logical));
            }
            i = i + 1;
        }
        assert(flags@.take(flags@.len() as int) =~= flags@);
    }

    /// Records wrapped lines from the first unrecorded one up to `to`
    /// (within `lines`): `from` is the block's first line.
    pub fn mark_wrapped(&mut self, from: usize, to: usize, lines: &Vec<Vec<String>>)
        requires
            old(self).wf(),
            old(self).logical + lines@.len() <= usize::MAX,
        ensures
            ({
                let start = old(self).line_number_map@.len() as int;
                let end = if (to as int) < lines@.len() { to as int } else { lines@.len() as int };
                let flags = if start < end { wrapped_flags(lines_view(lines@), start, end, from as int) } else { seq![] };
                &&& final(self).wf()
                &&& final(self).logical == old(self).logical + count_new(flags)
                &&& final(self).line_number_map@ == old(self).line_number_map@ + numbers_after(old(self).logical, flags)
                &&& final(self).source_line_map@ == old(self).source_line_map@ + Seq::new(
                    flags.len(),
                    |k: int| old(self).current_src_line,
                )
                &&& final(self).current_src_line == old(self).current_src_line
            }),
    {
        let ghost lv = lines_view(lines@);
        let start = self.line_number_map.len();
        let end = if to < lines.len() { to } else { lines.len() };
        let mut flags: Vec<bool> = Vec::new();
        let mut i = start;
        while i < end
            invariant
                lv == lines_view(lines@),
                end <= lines@.len(),
                start <= i,
                i <= end || flags@.len() == 0,
                flags@.len() == i - start,
                forall|k: int| 0 <= k < flags@.len() ==> #[trigger] flags@[k] == wrapped_is_new(lv[start + k], start + k, from as int),
            decreases end - i,
        {
            let line = &lines[i];
            assert(lv[i as int] == line_view(*line));
            let is_new = i == from || line_is_empty(line) || has_frame_span(line);
            flags.push(is_new);
            i = i + 1;
        }
        proof {
            if start < end {
                assert(flags@ =~= wrapped_flags(lv, start as int, end as int, from as int));
            } else {
                assert(flags@ =~= Seq::<bool>::empty());
            }
        }
        self.push_flags(&flags);
    }

    /// Records table lines from the first unrecorded one up to `to`
    /// (within `lines`).
    pub fn mark_table_lines(&mut self, to: usize, lines: &Vec<Vec<String>>)
        requires
            old(self).wf(),
            old(self).logical + lines@.len() <= usize::MAX,
        ensures
            ({
                let start = old(self).line_number_map@.len() as int;
                let end = if (to as int) < lines@.len() { to as int } else { lines@.len() as int };
                let flags = if start < end { table_flags(lines_view(lines@), start, end) } else { seq![] };
                &&& final(self).wf()
                &&& final(self).logical == old(self).logical + count_new(flags)
                &&& final(self).line_number_map@ == old(self).line_number_map@ + numbers_after(old(self).logical, flags)
                &&& final(self).source_line_map@ == old(self).source_line_map@ + Seq::new(
                    flags.len(),
                    |k: int| old(self).current_src_line,
                )
                &&& final(self).current_src_line == old(self).current_src_line
            }),
    {
        let ghost lv = lines_view(lines@);
        let start = self.line_number_map.len();
        let end = if to < lines.len() { to } else { lines.len() };
        let mut flags: Vec<bool> = Vec::new();
        let mut prev_border = true;
        let mut i = start;
        while i < end
            invariant
                lv == lines_view(lines@),
                end <= lines@.len(),
                start <= i,
                i <= end || flags@.len() == 0,
                flags@.len() == i - start,
                i > start ==> prev_border == is_border(lv[i - 1]),
                i == start ==> prev_border,
                forall|k: int|
                    0 <= k < flags@.len() ==> #[trigger] flags@[k] == (is_border(lv[start + k]) || is_empty_line_spec(
                        lv[start + k],
                    ) || k == 0 || is_border(lv[start + k - 1])),
            decreases end - i,
        {
            let line = &lines[i];
            assert(lv[i as int] == line_view(*line));
            let border = has_border_span(line);
            flags.push(border || line_is_empty(line) || prev_border);
            prev_border = border;
            i = i + 1;
        }
        proof {
            if start < end {
                assert(flags@ =~= table_flags(lv, start as int, end as int));
            } else {
                assert(flags@ =~= Seq::<bool>::empty());
            }
        }
        self.push_flags(&flags);
    }
}

/// The plain text of a line: its spans laid end to end.
pub open spec fn plain_text(spans: Seq<Seq<char>>) -> Seq<char> {
    join_spec(spans, seq![])
}

/// The plain text of a line.
pub fn line_plain_text(spans: &Vec<String>) -> (r: String)
    ensures
        r@ == plain_text(line_view(*spans)),
{
    proof {
        reveal_strlit("");
        assert(""@ =~= Seq::<char>::empty());
    }
    join_strings(spans, "")
}

/// What the last finished block was.
#[derive(Clone, Copy, Debug, PartialEq, Eq, Structural)]
pub enum LastBlock {
    Other,
    Paragraph,
    Blockquote,
}

/// `lines` without a last line of nothing but block-quote markers.
pub open spec fn without_blockquote_gap(lines: Seq<Seq<Seq<char>>>) -> Seq<Seq<Seq<char>>> {
    if lines.len() > 0 && blockquote_blank(plain_text(lines.last())) {
        lines.drop_last()
    } else {
        lines
    }
}

/// `lines` without the blank gap a paragraph or block quote left, when a
/// block follows.
pub open spec fn without_paragraph_gap(lines: Seq<Seq<Seq<char>>>, last_block: LastBlock) -> Seq<Seq<Seq<char>>> {
    if (last_block == LastBlock::Paragraph || last_block == LastBlock::Blockquote) && lines.len() > 0 && ({
        let plain = plain_text(lines.last());
        plain.len() == 0 || blockquote_blank(plain)
    }) {
        lines.drop_last()
    } else {
        lines
    }
}

proof fn lemma_lines_view_drop_last(lines: Seq<Vec<String>>)
    requires
        lines.len() > 0,
    ensures
        lines_view(lines.drop_last()) == lines_view(lines).drop_last(),
        lines_view(lines).last() == line_view(lines.last()),
{
    assert(lines_view(lines.drop_last()) =~= lines_view(lines).drop_last());
}

/// Drops a last line of nothing but block-quote markers.
pub fn pop_trailing_blockquote_gap(lines: &mut Vec<Vec<String>>)
    ensures
        lines_view(final(lines)@) == without_blockquote_gap(lines_view(old(lines)@)),
{
    let n = lines.len();
    if n > 0 {
        proof {
            lemma_lines_view_drop_last(lines@);
        }
        let plain = line_plain_text(&lines[n - 1]);
        if is_blockquote_blank_text(plain.as_str()) {
            lines.pop();
        }
    }
}

/// Before a block, drops the blank line a paragraph or block quote left.
pub fn trim_paragraph_gap_before_block(lines: &mut Vec<Vec<String>>, last_block: LastBlock)
    ensures
        lines_view(final(lines)@) == without_paragraph_gap(lines_view(old(lines)@), last_block),
{
    let n = lines.len();
    if (last_block == LastBlock::Paragraph || last_block == LastBlock::Blockquote) && n > 0 {
        proof {
            lemma_lines_view_drop_last(lines@);
        }
        let plain = line_plain_text(&lines[n - 1]);
        if plain.as_str().unicode_len() == 0 || is_blockquote_blank_text(plain.as_str()) {
            lines.pop();
        }
    }
}

/// The marker spans before a line nested `depth` block quotes deep.
pub open spec fn marker_spans(depth: nat) -> Seq<Seq<char>> {
    Seq::new(depth, |k: int| BLOCKQUOTE_MARKER@)
}

/// The marker spans before a line nested `depth` block quotes deep.
pub fn blockquote_marker_spans(depth: usize) -> (r: Vec<String>)
    ensures
        line_view(r) == marker_spans(depth as nat),
{
    let mut out: Vec<String> = Vec::new();
    let mut i: usize = 0;
    while i < depth
        invariant
            i <= depth,
            out@.len() == i,
            forall|k: int| 0 <= k < i ==> #[trigger] out@[k]@ == BLOCKQUOTE_MARKER@,
        decreases depth - i,
    {
        let marker = String::from_str(BLOCKQUOTE_MARKER);
        out.push(marker);
        i = i + 1;
    }
    assert(line_view(out) =~= marker_spans(depth as nat));
    out
}

/// The lines after a block quote ends at `depth`: pending text, after its
/// markers, becomes a line; a trailing marker-only line is dropped; then a
/// blank line, or the markers of the enclosing quote, closes it.
pub open spec fn blockquote_ended(lines: Seq<Seq<Seq<char>>>, spans: Seq<Seq<char>>, depth: usize) -> Seq<Seq<Seq<char>>> {
    let with_text = if spans.len() > 0 {
        lines.push(marker_spans(depth as nat) + spans)
    } else {
        lines
    };
    let outer = if depth > 0 { (depth - 1) as nat } else { 0 };
    without_blockquote_gap(with_text).push(if outer == 0 { seq![""@] } else { marker_spans(outer) })
}

/// Ends a block quote: see `blockquote_ended`. The pending spans are used
/// up and the depth drops by one (not below zero).
pub fn end_blockquote(lines: &mut Vec<Vec<String>>, spans: &mut Vec<String>, depth: &mut usize)
    ensures
        lines_view(final(lines)@) == blockquote_ended(lines_view(old(lines)@), line_view(*old(spans)), *old(depth)),
        final(spans)@.len() == 0,
        *final(depth) == if *old(depth) > 0 { (*old(depth) - 1) as usize } else { 0usize },
{
    let ghost before = lines_view(lines@);
    if spans.len() > 0 {
        let mut all = blockquote_marker_spans(*depth);
        let ghost marks = line_view(all);
        let ghost pending = line_view(*spans);
        all.append(spans);
        assert(line_view(all) =~= marks + pending);
        lines.push(all);
        assert(lines_view(lines@) =~= before.push(marks + pending));
    }
    pop_trailing_blockquote_gap(lines);
    *depth = if *depth > 0 { *depth - 1 } else { 0 };
    let ghost trimmed = lines_view(lines@);
    let closing = if *depth == 0 {
        let mut blank: Vec<String> = Vec::new();
        let empty = String::new();
        proof {
            reveal_strlit("");
            assert(empty@ =~= ""@);
        }
        blank.push(empty);
        assert(line_view(blank) =~= seq![""@]);
        blank
    } else {
        blockquote_marker_spans(*depth)
    };
    let ghost closing_view = line_view(closing);
    lines.push(closing);
    assert(lines_view(lines@) =~= trimmed.push(closing_view));
    spans.clear();
}

} // verus!
