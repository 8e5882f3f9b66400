//! Where a Mermaid block sits in the document: the frame around it, the
//! window of a wide canvas the document preview shows, and the text of the
//! block's lines.
use vstd::prelude::*;
use crate::numbers::{decimal, decimal_chars};
use crate::preview::{add_sat, sat_sub, spec_preview_origin, CellRect, MermaidPreview};
use crate::text::{chars_of, display_width, lines_of, lines_spec, string_from_chars, strings_view, trim_spec, trim_str, unicode_width_of};
use crate::width::{sat_add, slice_columns_spec, slice_display_columns, spaces};
use crate::diagram_screen::{push_decimal_text, push_str};

verus! {

/// Rows of canvas a document preview shows at most.
pub const PREVIEW_ROWS: usize = 24;

/// Narrowest frame, in cells.
pub const MIN_FRAME_WIDTH: usize = 44;

/// The frame and window of one Mermaid block.
#[derive(Clone, Copy, Debug, PartialEq, Eq, Structural)]
pub struct MermaidWindow {
    pub canvas_width: usize,
    pub canvas_height: usize,
    /// Whether rows carry line numbers (a failed layout's source).
    pub numbered: bool,
    pub digits: usize,
    pub gutter: usize,
    pub frame_width: usize,
    pub body_width: usize,
    /// Whether every row is shown.
    pub full_height: bool,
    /// A complete export of a failed layout: the source, unframed.
    pub source_complete: bool,
    pub start_x: usize,
    pub end_x: usize,
    pub start_y: usize,
    pub end_y: usize,
    pub clipped: bool,
}

/// The widest row, in display cells.
pub open spec fn widest(rows: Seq<Seq<char>>) -> usize
    decreases rows.len(),
{
    if rows.len() == 0 {
        0
    } else {
        let w = unicode_width_of(rows.last());
        let rest = widest(rows.drop_last());
        if w > rest { w } else { rest }
    }
}

/// The leftmost start of a node cut by the right edge `end_x`.
pub open spec fn cut_edge(nodes: Seq<CellRect>, end_x: usize) -> Option<usize>
    decreases nodes.len(),
{
    if nodes.len() == 0 {
        None
    } else {
        let n = nodes.last();
        let rest = cut_edge(nodes.drop_last(), end_x);
        if n.x < end_x && sat_add(n.x, n.width) > end_x {
            match rest {
                Some(m) => Some(if n.x < m { n.x } else { m }),
                None => Some(n.x),
            }
        } else {
            rest
        }
    }
}

/// The lowest bottom of a node wholly inside the rows `[start_y, end_y)`
/// that overlaps the columns `[start_x, start_x + body_width)`.
pub open spec fn last_bottom(nodes: Seq<CellRect>, start_x: usize, body_width: usize, start_y: usize, end_y: usize) -> Option<usize>
    decreases nodes.len(),
{
    if nodes.len() == 0 {
        None
    } else {
        let n = nodes.last();
        let rest = last_bottom(nodes.drop_last(), start_x, body_width, start_y, end_y);
        if n.x < sat_add(start_x, body_width) && sat_add(n.x, n.width) > start_x && n.y >= start_y
            && sat_add(n.y, n.height) <= end_y {
            let b = sat_add(n.y, n.height);
            match rest {
                Some(m) => Some(if b > m { b } else { m }),
                None => Some(b),
            }
        } else {
            rest
        }
    }
}

pub open spec fn row_blank(rows: Seq<Seq<char>>, i: int, sx: usize, ex: usize) -> bool {
    trim_spec(slice_columns_spec(rows[i], sx, ex)).len() == 0
}

/// The first row from `s` that shows anything in `[sx, ex)`, or `e`.
pub open spec fn skip_blank_top(rows: Seq<Seq<char>>, s: int, e: int, sx: usize, ex: usize) -> int
    decreases e - s,
{
    if s < e && row_blank(rows, s, sx, ex) {
        skip_blank_top(rows, s + 1, e, sx, ex)
    } else {
        s
    }
}

/// One past the last row before `e` that shows anything, or `s`.
pub open spec fn skip_blank_bottom(rows: Seq<Seq<char>>, s: int, e: int, sx: usize, ex: usize) -> int
    decreases e - s,
{
    if e > s && row_blank(rows, e - 1, sx, ex) {
        skip_blank_bottom(rows, s, e - 1, sx, ex)
    } else {
        e
    }
}

/// The window of a Mermaid block: `rows` are the lines shown (the canvas,
/// or the source when the layout failed), `ready` the preview when there is
/// one, `failed` whether the layout failed (neither means loading).
pub open spec fn window_spec(
    rows: Seq<Seq<char>>,
    ready: Option<MermaidPreview>,
    failed: bool,
    prefix_width: usize,
    render_width: usize,
    complete: bool,
    code_line_numbers: bool,
) -> MermaidWindow {
    let use_rendered = ready is Some;
    let (cw, ch) = match ready {
        Some(p) => (p.width, p.height),
        None => (widest(rows), rows.len() as usize),
    };
    let numbered = !use_rendered && failed && code_line_numbers;
    let digits = if numbered {
        decimal(if rows.len() > 1 { rows.len() as nat } else { 1 }).len() as usize
    } else {
        0
    };
    let gutter = if numbered { sat_add(digits, 2) } else { 2usize };
    let available = sat_sub(render_width, prefix_width);
    let source_complete = complete && failed;
    let wide = if sat_add(cw, sat_add(gutter, 2)) > MIN_FRAME_WIDTH {
        sat_add(cw, sat_add(gutter, 2))
    } else {
        MIN_FRAME_WIDTH
    };
    let frame_width = if source_complete {
        MIN_FRAME_WIDTH
    } else if complete {
        wide
    } else if wide < available {
        wide
    } else {
        available
    };
    let body_width = sat_sub(frame_width, sat_add(gutter, 2));
    let full_height = complete || (use_rendered && cw <= body_width);
    let (sx, sy0) = if full_height {
        (0usize, 0usize)
    } else {
        match ready {
            Some(p) => spec_preview_origin(p.nodes@, p.width, p.height, p.overview, body_width, PREVIEW_ROWS),
            None => (0usize, 0usize),
        }
    };
    let ex0 = sat_add(sx, body_width);
    let ex = if !complete && (ready matches Some(p) && p.overview) {
        match cut_edge(ready->0.nodes@, ex0) {
            Some(edge) => if edge > sat_add(sx, body_width / 2) { edge } else { ex0 },
            None => ex0,
        }
    } else {
        ex0
    };
    let ey0 = if full_height {
        rows.len() as usize
    } else if sat_add(sy0, PREVIEW_ROWS) < rows.len() {
        sat_add(sy0, PREVIEW_ROWS)
    } else {
        rows.len() as usize
    };
    let ey1 = if !full_height {
        match ready {
            Some(p) => match last_bottom(p.nodes@, sx, body_width, sy0, ey0) {
                Some(b) => if sat_add(b, 1) < ey0 { sat_add(b, 1) } else { ey0 },
                None => ey0,
            },
            None => ey0,
        }
    } else {
        ey0
    };
    let (sy, ey) = if !full_height && use_rendered {
        let s = skip_blank_top(rows, sy0 as int, ey1 as int, sx, ex);
        (s as usize, skip_blank_bottom(rows, s, ey1 as int, sx, ex) as usize)
    } else {
        (sy0, ey1)
    };
    MermaidWindow {
        canvas_width: cw,
        canvas_height: ch,
        numbered,
        digits,
        gutter,
        frame_width,
        body_width,
        full_height,
        source_complete,
        start_x: sx,
        end_x: ex,
        start_y: sy,
        end_y: ey,
        clipped: sx > 0 || sy > 0 || cw > body_width || ch > ey,
    }
}

fn sub_sat(a: usize, b: usize) -> (r: usize)
    ensures
        r == sat_sub(a, b),
{
    if a >= b {
        a - b
    } else {
        0
    }
}

/// The widest of `rows`, in display cells.
pub fn widest_row(rows: &Vec<String>) -> (w: usize)
    ensures
        w == widest(strings_view(rows@)),
{
    let ghost all = strings_view(rows@);
    let mut best: usize = 0;
    let mut i: usize = 0;
    assert(all.take(0) =~= Seq::<Seq<char>>::empty());
    while i < rows.len()
        invariant
            all == strings_view(rows@),
            i <= rows@.len(),
            best == widest(all.take(i as int)),
        decreases rows@.len() - i,
    {
        let w = display_width(rows[i].as_str());
        proof {
            assert(all.take(i + 1).drop_last() =~= all.take(i as int));
            assert(all.take(i + 1).last() == rows@[i as int]@);
        }
        if w > best {
            best = w;
        }
        i = i + 1;
    }
    assert(all.take(rows@.len() as int) =~= all);
    best
}

/// The leftmost start of a node cut by the right edge `end_x`.
pub fn find_cut_edge(nodes: &Vec<CellRect>, end_x: usize) -> (r: Option<usize>)
    ensures
        r == cut_edge(nodes@, end_x),
{
    let mut best: Option<usize> = None;
    let mut i: usize = 0;
    assert(nodes@.take(0) =~= Seq::<CellRect>::empty());
    while i < nodes.len()
        invariant
            i <= nodes@.len(),
            best == cut_edge(nodes@.take(i as int), end_x),
        decreases nodes@.len() - i,
    {
        let n = nodes[i];
        proof {
            assert(nodes@.take(i + 1).drop_last() =~= nodes@.take(i as int));
            assert(nodes@.take(i + 1).last() == n);
        }
        if n.x < end_x && add_sat(n.x, n.width) > end_x {
            best = match best {
                Some(m) => Some(if n.x < m { n.x } else { m }),
                None => Some(n.x),
            };
        }
        i = i + 1;
    }
    assert(nodes@.take(nodes@.len() as int) =~= nodes@);
    best
}

/// The lowest bottom of a node wholly inside rows `[start_y, end_y)` that
/// overlaps the columns `[start_x, start_x + body_width)`.
pub fn find_last_bottom(nodes: &Vec<CellRect>, start_x: usize, body_width: usize, start_y: usize, end_y: usize) -> (r: Option<usize>)
    ensures
        r == last_bottom(nodes@, start_x, body_width, start_y, end_y),
{
    let mut best: Option<usize> = None;
    let mut i: usize = 0;
    let right = add_sat(start_x, body_width);
    assert(nodes@.take(0) =~= Seq::<CellRect>::empty());
    while i < nodes.len()
        invariant
            i <= nodes@.len(),
            right == sat_add(start_x, body_width),
            best == last_bottom(nodes@.take(i as int), start_x, body_width, start_y, end_y),
        decreases nodes@.len() - i,
    {
        let n = nodes[i];
        proof {
            assert(nodes@.take(i + 1).drop_last() =~= nodes@.take(i as int));
            assert(nodes@.take(i + 1).last() == n);
        }
        let b = add_sat(n.y, n.height);
        if n.x < right && add_sat(n.x, n.width) > start_x && n.y >= start_y && b <= end_y {
            best = match best {
                Some(m) => Some(if b > m { b } else { m }),
                None => Some(b),
            };
        }
        i = i + 1;
    }
    assert(nodes@.take(nodes@.len() as int) =~= nodes@);
    best
}

/// Whether row `i` shows nothing but blanks in the columns `[sx, ex)`.
pub fn is_row_blank(rows: &Vec<String>, i: usize, sx: usize, ex: usize) -> (r: bool)
    requires
        i < rows@.len(),
    ensures
        r == row_blank(strings_view(rows@), i as int, sx, ex),
{
    let cut = slice_display_columns(rows[i].as_str(), sx, ex);
    let t = trim_str(cut.as_str());
    t.len() == 0
}

/// The frame and window of a Mermaid block. `rows` are the lines shown: the
/// rendered canvas when `ready` holds a preview, else the source when the
/// layout `failed`, else the loading line.
pub fn mermaid_window(
    rows: &Vec<String>,
    ready: Option<&MermaidPreview>,
    failed: bool,
    prefix_width: usize,
    render_width: usize,
    complete: bool,
    code_line_numbers: bool,
) -> (w: MermaidWindow)
    ensures
        w == window_spec(
            strings_view(rows@),
            match ready {
                Some(p) => Some(*p),
                None => None,
            },
            failed,
            prefix_width,
            render_width,
            complete,
            code_line_numbers,
        ),
        w.end_y <= rows@.len(),
{
    let ghost all = strings_view(rows@);
    let ghost spec_ready: Option<MermaidPreview> = match ready {
        Some(p) => Some(*p),
        None => None,
    };
    let use_rendered = ready.is_some();
    let (cw, ch) = match ready {
        Some(p) => (p.width, p.height),
        None => (widest_row(rows), rows.len()),
    };
    let numbered = !use_rendered && failed && code_line_numbers;
    let digits = if numbered {
        let n = if rows.len() > 1 { rows.len() } else { 1 };
        decimal_chars(n).len()
    } else {
        0
    };
    let gutter = if numbered { add_sat(digits, 2) } else { 2 };
    let available = sub_sat(render_width, prefix_width);
    let source_complete = complete && failed;
    let framed = add_sat(cw, add_sat(gutter, 2));
    let wide = if framed > MIN_FRAME_WIDTH { framed } else { MIN_FRAME_WIDTH };
    let frame_width = if source_complete {
        MIN_FRAME_WIDTH
    } else if complete {
        wide
    } else if wide < available {
        wide
    } else {
        available
    };
    let body_width = sub_sat(frame_width, add_sat(gutter, 2));
    let full_height = complete || (use_rendered && cw <= body_width);
    let (sx, sy0) = if full_height {
        (0, 0)
    } else {
        match ready {
            Some(p) => p.preview_origin(body_width, PREVIEW_ROWS),
            None => (0, 0),
        }
    };
    let ex0 = add_sat(sx, body_width);
    let ex = match ready {
        Some(p) => if !complete && p.overview {
            match find_cut_edge(&p.nodes, ex0) {
                Some(edge) => if edge > add_sat(sx, body_width / 2) { edge } else { ex0 },
                None => ex0,
            }
        } else {
            ex0
        },
        None => ex0,
    };
    let ey0 = if full_height {
        rows.len()
    } else {
        let e = add_sat(sy0, PREVIEW_ROWS);
        if e < rows.len() { e } else { rows.len() }
    };
    let ey1 = if !full_height {
        match ready {
            Some(p) => match find_last_bottom(&p.nodes, sx, body_width, sy0, ey0) {
                Some(b) => {
                    let below = add_sat(b, 1);
                    if below < ey0 { below } else { ey0 }
                },
                None => ey0,
            },
            None => ey0,
        }
    } else {
        ey0
    };
    let mut sy = sy0;
    let mut ey = ey1;
    if !full_height && use_rendered {
        assert(ey1 <= rows@.len());
        while sy < ey && is_row_blank(rows, sy, sx, ex)
            invariant
                all == strings_view(rows@),
                ey == ey1,
                ey1 <= rows@.len(),
                skip_blank_top(all, sy as int, ey as int, sx, ex) == skip_blank_top(all, sy0 as int, ey1 as int, sx, ex),
            decreases ey - sy,
        {
            sy = sy + 1;
        }
        let ghost s = skip_blank_top(all, sy0 as int, ey1 as int, sx, ex);
        assert(sy as int == s);
        while ey > sy && is_row_blank(rows, ey - 1, sx, ex)
            invariant
                all == strings_view(rows@),
                sy as int == s,
                ey <= ey1 <= rows@.len(),
                skip_blank_bottom(all, s, ey as int, sx, ex) == skip_blank_bottom(all, s, ey1 as int, sx, ex),
            decreases ey,
        {
            ey = ey - 1;
        }
    }
    MermaidWindow {
        canvas_width: cw,
        canvas_height: ch,
        numbered,
        digits,
        gutter,
        frame_width,
        body_width,
        full_height,
        source_complete,
        start_x: sx,
        end_x: ex,
        start_y: sy,
        end_y: ey,
        clipped: sx > 0 || sy > 0 || cw > body_width || ch > ey,
    }
}

/// "W×H" of the canvas.
pub open spec fn size_text(w: MermaidWindow) -> Seq<char> {
    decimal(w.canvas_width as nat) + "×"@ + decimal(w.canvas_height as nat)
}

/// The notice under a Mermaid block: loading, a warning (or a failed
/// layout's error), an overview's hidden nodes, a clipped window, or the
/// size of a complete preview.
pub open spec fn notice_spec(w: MermaidWindow, loading: bool, warning: Option<Seq<char>>, overview_hidden: Option<usize>) -> Seq<char> {
    if loading {
        "loading · v open · Enter copy source"@
    } else if warning is Some {
        (if w.source_complete {
            "source"@
        } else if w.clipped {
            "clipped"@
        } else {
            "preview"@
        }) + " "@ + size_text(w) + " · warning · v open/source: "@ + warning->0
    } else if overview_hidden is Some {
        "overview · "@ + decimal(overview_hidden->0 as nat) + " nodes collapsed · v open full"@
    } else if w.clipped {
        "clipped "@ + size_text(w) + " · v open · / search in viewer"@
    } else {
        size_text(w) + " · v open · Enter copy source"@
    }
}

/// The position line of a clipped window or an overview (none for a
/// complete export): with a preview cache the window's origin, else a hint
/// at the full export.
pub open spec fn detail_spec(w: MermaidWindow, overview: bool, complete: bool, cached: bool) -> Option<Seq<char>> {
    if (w.clipped || overview) && !complete {
        Some((if w.clipped { "clipped "@ } else { "view "@ }) + size_text(w) + if cached {
            " · x="@ + decimal(w.start_x as nat) + " y="@ + decimal(w.start_y as nat)
        } else {
            " · --mermaid-full for full export"@
        })
    } else {
        None
    }
}

fn push_size(m: &mut String, w: &MermaidWindow)
    ensures
        final(m)@ == old(m)@ + size_text(*w),
{
    push_decimal_text(m, w.canvas_width);
    push_str(m, "×");
    push_decimal_text(m, w.canvas_height);
}

/// The notice line's text; `overview_hidden` holds the hidden node count of
/// an overview preview.
pub fn mermaid_notice(w: &MermaidWindow, loading: bool, warning: Option<&str>, overview_hidden: Option<usize>) -> (r: String)
    ensures
        r@ == notice_spec(
            *w,
            loading,
            match warning {
                Some(t) => Some(t@),
                None => None,
            },
            overview_hidden,
        ),
{
    let mut m = String::new();
    if loading {
        push_str(&mut m, "loading · v open · Enter copy source");
    } else if let Some(t) = warning {
        push_str(&mut m, if w.source_complete {
            "source"
        } else if w.clipped {
            "clipped"
        } else {
            "preview"
        });
        push_str(&mut m, " ");
        push_size(&mut m, w);
        push_str(&mut m, " · warning · v open/source: ");
        push_str(&mut m, t);
    } else if let Some(h) = overview_hidden {
        push_str(&mut m, "overview · ");
        push_decimal_text(&mut m, h);
        push_str(&mut m, " nodes collapsed · v open full");
    } else if w.clipped {
        push_str(&mut m, "clipped ");
        push_size(&mut m, w);
        push_str(&mut m, " · v open · / search in viewer");
    } else {
        push_size(&mut m, w);
        push_str(&mut m, " · v open · Enter copy source");
    }
    m
}

/// The position line under a clipped window or an overview.
pub fn mermaid_detail(w: &MermaidWindow, overview: bool, complete: bool, cached: bool) -> (r: Option<String>)
    ensures
        r matches Some(t) ==> detail_spec(*w, overview, complete, cached) == Some(t@),
        r is None <==> detail_spec(*w, overview, complete, cached) is None,
{
    if (w.clipped || overview) && !complete {
        let mut m = String::new();
        push_str(&mut m, if w.clipped { "clipped " } else { "view " });
        push_size(&mut m, w);
        if cached {
            push_str(&mut m, " · x=");
            push_decimal_text(&mut m, w.start_x);
            push_str(&mut m, " y=");
            push_decimal_text(&mut m, w.start_y);
        } else {
            push_str(&mut m, " · --mermaid-full for full export");
        }
        Some(m)
    } else {
        None
    }
}

/// `n` copies of `c`.
pub open spec fn repeated(c: char, n: nat) -> Seq<char> {
    Seq::new(n, |i: int| c)
}

/// `n` copies of `c` as a string.
pub fn repeat_char(c: char, n: usize) -> (r: String)
    ensures
        r@ == repeated(c, n as nat),
{
    let mut v: Vec<char> = Vec::new();
    let mut i: usize = 0;
    while i < n
        invariant
            i <= n,
            v@ == repeated(c, i as nat),
        decreases n - i,
    {
        v.push(c);
        i = i + 1;
        assert(v@ =~= repeated(c, i as nat));
    }
    crate::text::string_from_chars(v.as_slice())
}

/// The top edge of the frame, labelled, clipped to the frame width.
pub open spec fn frame_top_spec(frame_width: usize) -> Seq<char> {
    slice_columns_spec("┌─ mermaid "@ + repeated('─', sat_sub(frame_width, 12) as nat) + "┐"@, 0, frame_width)
}

/// The bottom edge of the frame, clipped to the frame width.
pub open spec fn frame_bottom_spec(frame_width: usize) -> Seq<char> {
    slice_columns_spec("└"@ + repeated('─', sat_sub(frame_width, 2) as nat) + "┘"@, 0, frame_width)
}

/// The left edge of a row: a line number right-aligned in `digits` cells
/// between bars, or a bar and a blank.
pub open spec fn row_gutter_spec(w: MermaidWindow, index: usize) -> Seq<char> {
    if w.numbered {
        let d = decimal(index as nat + 1);
        "│"@ + spaces(if d.len() < w.digits { (w.digits - d.len()) as nat } else { 0 }) + d + "│"@
    } else {
        "│ "@
    }
}

/// The blanks that fill a row of `row_width` cells to the body width, then
/// the right edge.
pub open spec fn row_padding_spec(w: MermaidWindow, row_width: usize) -> Seq<char> {
    spaces(sat_sub(w.body_width, row_width) as nat) + " │"@
}

/// The top edge of the frame.
pub fn frame_top(frame_width: usize) -> (r: String)
    ensures
        r@ == frame_top_spec(frame_width),
{
    let mut m = String::new();
    push_str(&mut m, "┌─ mermaid ");
    let bar = repeat_char('─', sub_sat(frame_width, 12));
    push_str(&mut m, bar.as_str());
    push_str(&mut m, "┐");
    slice_display_columns(m.as_str(), 0, frame_width)
}

/// The bottom edge of the frame.
pub fn frame_bottom(frame_width: usize) -> (r: String)
    ensures
        r@ == frame_bottom_spec(frame_width),
{
    let mut m = String::new();
    push_str(&mut m, "└");
    let bar = repeat_char('─', sub_sat(frame_width, 2));
    push_str(&mut m, bar.as_str());
    push_str(&mut m, "┘");
    slice_display_columns(m.as_str(), 0, frame_width)
}

/// The left edge of the row at `index` (counted from zero).
pub fn row_gutter(w: &MermaidWindow, index: usize) -> (r: String)
    requires
        index < usize::MAX,
    ensures
        r@ == row_gutter_spec(*w, index),
{
    if w.numbered {
        let d = decimal_chars(index + 1);
        let pad = if d.len() < w.digits { w.digits - d.len() } else { 0 };
        let mut m = String::new();
        push_str(&mut m, "│");
        let blanks = repeat_char(' ', pad);
        assert(blanks@ =~= spaces(pad as nat));
        push_str(&mut m, blanks.as_str());
        push_decimal_text(&mut m, index + 1);
        push_str(&mut m, "│");
        m
    } else {
        String::from_str("│ ")
    }
}

/// The filling and right edge after a row of `row_width` cells.
pub fn row_padding(w: &MermaidWindow, row_width: usize) -> (r: String)
    ensures
        r@ == row_padding_spec(*w, row_width),
{
    let blanks = repeat_char(' ', sub_sat(w.body_width, row_width));
    assert(blanks@ =~= spaces(sat_sub(w.body_width, row_width) as nat));
    let mut m = blanks;
    push_str(&mut m, " │");
    m
}

/// The text of the framed line for row `i`: the whole source line in a
/// complete export of a failed layout, else gutter, the window's columns of
/// the row and the padding, cut to the frame when the frame is too narrow.
pub open spec fn row_line_spec(w: MermaidWindow, rows: Seq<Seq<char>>, i: int) -> Seq<char> {
    if w.source_complete {
        slice_columns_spec(rows[i], 0, usize::MAX)
    } else {
        let body = slice_columns_spec(rows[i], w.start_x, w.end_x);
        let t = row_gutter_spec(w, i as usize) + body + row_padding_spec(w, unicode_width_of(body));
        if w.frame_width < sat_add(w.gutter, 2) {
            slice_columns_spec(t, 0, w.frame_width)
        } else {
            t
        }
    }
}

/// How many rows the window shows.
pub open spec fn shown_row_count(w: MermaidWindow) -> nat {
    if w.end_y > w.start_y {
        (w.end_y - w.start_y) as nat
    } else {
        0
    }
}

/// The framed lines of the window's rows `[start_y, end_y)`.
pub fn mermaid_rows(w: &MermaidWindow, rows: &Vec<String>) -> (r: Vec<String>)
    requires
        w.end_y <= rows@.len(),
    ensures
        r@.len() == shown_row_count(*w),
        forall|k: int|
            0 <= k < r@.len() ==> #[trigger] r@[k]@ == row_line_spec(*w, strings_view(rows@), w.start_y + k),
{
    let ghost all = strings_view(rows@);
    let mut out: Vec<String> = Vec::new();
    let mut i = w.start_y;
    while i < w.end_y
        invariant
            all == strings_view(rows@),
            w.start_y <= i,
            w.end_y <= rows@.len(),
            i <= w.end_y || out@.len() == 0,
            out@.len() == i - w.start_y,
            forall|k: int|
                0 <= k < out@.len() ==> #[trigger] out@[k]@ == row_line_spec(*w, all, w.start_y + k),
        decreases w.end_y - i,
    {
        let line = if w.source_complete {
            slice_display_columns(rows[i].as_str(), 0, usize::MAX)
        } else {
            let body = slice_display_columns(rows[i].as_str(), w.start_x, w.end_x);
            let mut t = row_gutter(w, i);
            push_str(&mut t, body.as_str());
            let pad = row_padding(w, display_width(body.as_str()));
            push_str(&mut t, pad.as_str());
            if w.frame_width < add_sat(w.gutter, 2) {
                slice_display_columns(t.as_str(), 0, w.frame_width)
            } else {
                t
            }
        };
        proof {
            assert(all[i as int] == rows@[i as int]@);
        }
        out.push(line);
        i = i + 1;
    }
    out
}

/// A notice line inside the frame: the text cut to the inner width between
/// bars, or the bare text cut to the frame when the frame is too narrow.
pub open spec fn notice_line_spec(frame_width: usize, text: Seq<char>) -> Seq<char> {
    if frame_width < 4 {
        slice_columns_spec(text, 0, frame_width)
    } else {
        let t = slice_columns_spec(text, 0, (frame_width - 4) as usize);
        "│ "@ + t + spaces(sat_sub((frame_width - 4) as usize, unicode_width_of(t)) as nat) + " │"@
    }
}

/// A notice line inside the frame.
pub fn notice_line(frame_width: usize, text: &str) -> (r: String)
    ensures
        r@ == notice_line_spec(frame_width, text@),
{
    if frame_width < 4 {
        slice_display_columns(text, 0, frame_width)
    } else {
        let t = slice_display_columns(text, 0, frame_width - 4);
        let mut m = String::from_str("│ ");
        push_str(&mut m, t.as_str());
        let blanks = repeat_char(' ', sub_sat(frame_width - 4, display_width(t.as_str())));
        assert(blanks@ =~= spaces(sat_sub((frame_width - 4) as usize, unicode_width_of(t@)) as nat));
        push_str(&mut m, blanks.as_str());
        push_str(&mut m, " │");
        m
    }
}

/// The line shown while the layout is still running.
pub const LOADING_LINE: &'static str = "Loading diagram…";

/// The lines a Mermaid block shows: the canvas of a preview, the source of a
/// failed layout, or the loading line.
pub open spec fn block_rows_spec(content: Seq<char>, ready: Option<MermaidPreview>, error: Option<Seq<char>>) -> Seq<Seq<char>> {
    match ready {
        Some(p) => lines_spec(p.text@),
        None => if error is Some {
            lines_spec(content)
        } else {
            lines_spec(LOADING_LINE@)
        },
    }
}

/// The text lines of a whole Mermaid block after its prefix: the top edge,
/// the window's rows, the notice, the spacing line of a preview with framing
/// nodes (unless complete), the position line, and the bottom edge.
pub open spec fn block_lines_spec(
    content: Seq<char>,
    ready: Option<MermaidPreview>,
    error: Option<Seq<char>>,
    prefix_width: usize,
    render_width: usize,
    complete: bool,
    code_line_numbers: bool,
    cached: bool,
    spacing: Seq<char>,
) -> Seq<Seq<char>> {
    let rows = block_rows_spec(content, ready, error);
    let failed = ready is None && error is Some;
    let w = window_spec(rows, ready, failed, prefix_width, render_width, complete, code_line_numbers);
    let body = Seq::new(shown_row_count(w), |k: int| row_line_spec(w, rows, w.start_y + k));
    let warning = match ready {
        Some(p) => match p.warning {
            Some(t) => Some(t@),
            None => None,
        },
        None => error,
    };
    let overview = ready matches Some(p) && p.overview;
    let hidden = if overview { Some(ready->0.hidden_nodes) } else { None };
    let notice = notice_spec(w, ready is None && error is None, warning, hidden);
    let spacing_lines = if !complete && (ready matches Some(p) && p.nodes@.len() > 0) {
        seq![notice_line_spec(w.frame_width, "spacing "@ + spacing + " · layout units"@)]
    } else {
        seq![]
    };
    let detail_lines = match detail_spec(w, overview, complete, cached) {
        Some(d) => seq![notice_line_spec(w.frame_width, d)],
        None => seq![],
    };
    seq![frame_top_spec(w.frame_width)] + body + seq![notice_line_spec(w.frame_width, notice)] + spacing_lines
        + detail_lines + seq![frame_bottom_spec(w.frame_width)]
}

/// `str::lines` of a string, as strings.
pub fn lines_as_strings(s: &str) -> (r: Vec<String>)
    ensures
        strings_view(r@) == lines_spec(s@),
{
    let cs = chars_of(s);
    let ls = lines_of(cs.as_slice());
    let mut out: Vec<String> = Vec::new();
    let mut i: usize = 0;
    while i < ls.len()
        invariant
            i <= ls@.len(),
            ls@.len() == lines_spec(s@).len(),
            forall|k: int| 0 <= k < ls@.len() ==> #[trigger] ls@[k]@ == lines_spec(s@)[k],
            out@.len() == i,
            forall|k: int| 0 <= k < i ==> #[trigger] out@[k]@ == lines_spec(s@)[k],
        decreases ls@.len() - i,
    {
        out.push(string_from_chars(ls[i].as_slice()));
        i = i + 1;
    }
    assert(strings_view(out@) =~= lines_spec(s@));
    out
}

/// The prefix a Mermaid block is drawn behind: unless the block is written
/// whole, a prefix wider than `render_width - 4` is cut to that many columns.
pub open spec fn block_prefix_spec(prefix: Seq<char>, render_width: usize, complete: bool) -> Seq<char> {
    if !complete && unicode_width_of(prefix) > sat_sub(render_width, 4) {
        slice_columns_spec(prefix, 0, sat_sub(render_width, 4))
    } else {
        prefix
    }
}

/// The prefix a Mermaid block is drawn behind (see `block_prefix_spec`)
/// and its display width.
pub fn clip_block_prefix(prefix: &str, render_width: usize, complete: bool) -> (r: (String, usize))
    ensures
        r.0@ == block_prefix_spec(prefix@, render_width, complete),
        r.1 == unicode_width_of(r.0@),
{
    let width = display_width(prefix);
    let room = sub_sat(render_width, 4);
    if !complete && width > room {
        let clipped = slice_display_columns(prefix, 0, room);
        let w = display_width(clipped.as_str());
        (clipped, w)
    } else {
        (String::from_str(prefix), width)
    }
}

/// A Mermaid block behind the prefix `prefix`: the prefix as drawn (cut as
/// `block_prefix_spec` says), the block's text lines after it, and its
/// layout, whose prefix width is that of the prefix as drawn.
pub fn mermaid_block_lines(
    content: &str,
    ready: Option<&MermaidPreview>,
    error: Option<&str>,
    prefix: &str,
    render_width: usize,
    complete: bool,
    code_line_numbers: bool,
    cached: bool,
    spacing: &str,
) -> (r: (Vec<String>, crate::document::BlockLayout, String))
    ensures
        r.2@ == block_prefix_spec(prefix@, render_width, complete),
        r.1.prefix_width == unicode_width_of(r.2@),
        strings_view(r.0@) == block_lines_spec(
            content@,
            match ready {
                Some(p) => Some(*p),
                None => None,
            },
            match error {
                Some(e) => Some(e@),
                None => None,
            },
            r.1.prefix_width,
            render_width,
            complete,
            code_line_numbers,
            cached,
            spacing@,
        ),
        r.1.rendered_width == window_spec(
            block_rows_spec(
                content@,
                match ready {
                    Some(p) => Some(*p),
                    None => None,
                },
                match error {
                    Some(e) => Some(e@),
                    None => None,
                },
            ),
            match ready {
                Some(p) => Some(*p),
                None => None,
            },
            ready is None && error is Some,
            r.1.prefix_width,
            render_width,
            complete,
            code_line_numbers,
        ).frame_width,
{
    let (drawn, width) = clip_block_prefix(prefix, render_width, complete);
    let (lines, layout) = framed_block_lines(
        content,
        ready,
        error,
        width,
        render_width,
        complete,
        code_line_numbers,
        cached,
        spacing,
    );
    (lines, layout, drawn)
}

/// The text lines of a Mermaid block after a prefix `prefix_width` cells
/// wide, and the block's layout. `ready` is the rendered preview, `error`
/// the message of a failed layout (neither: still loading), `spacing` the
/// layout spacing as shown.
#[verifier::rlimit(40)]
pub fn framed_block_lines(
    content: &str,
    ready: Option<&MermaidPreview>,
    error: Option<&str>,
    prefix_width: usize,
    render_width: usize,
    complete: bool,
    code_line_numbers: bool,
    cached: bool,
    spacing: &str,
) -> (r: (Vec<String>, crate::document::BlockLayout))
    ensures
        strings_view(r.0@) == block_lines_spec(
            content@,
            match ready {
                Some(p) => Some(*p),
                None => None,
            },
            match error {
                Some(e) => Some(e@),
                None => None,
            },
            prefix_width,
            render_width,
            complete,
            code_line_numbers,
            cached,
            spacing@,
        ),
        r.1.prefix_width == prefix_width,
        r.1.rendered_width == window_spec(
            block_rows_spec(
                content@,
                match ready {
                    Some(p) => Some(*p),
                    None => None,
                },
                match error {
                    Some(e) => Some(e@),
                    None => None,
                },
            ),
            match ready {
                Some(p) => Some(*p),
                None => None,
            },
            ready is None && error is Some,
            prefix_width,
            render_width,
            complete,
            code_line_numbers,
        ).frame_width,
{
    let ghost spec_ready: Option<MermaidPreview> = match ready {
        Some(p) => Some(*p),
        None => None,
    };
    let ghost spec_error: Option<Seq<char>> = match error {
        Some(e) => Some(e@),
        None => None,
    };
    let rows = match ready {
        Some(p) => lines_as_strings(p.text.as_str()),
        None => if error.is_some() {
            lines_as_strings(content)
        } else {
            lines_as_strings(LOADING_LINE)
        },
    };
    let ghost all = strings_view(rows@);
    assert(all == block_rows_spec(content@, spec_ready, spec_error));
    let failed = ready.is_none() && error.is_some();
    let w = mermaid_window(&rows, ready, failed, prefix_width, render_width, complete, code_line_numbers);
    let mut out: Vec<String> = Vec::new();
    out.push(frame_top(w.frame_width));
    let mut body = mermaid_rows(&w, &rows);
    let ghost body_spec = Seq::new(shown_row_count(w), |k: int| row_line_spec(w, all, w.start_y + k));
    out.append(&mut body);
    assert(strings_view(out@) =~= seq![frame_top_spec(w.frame_width)] + body_spec);
    let warning: Option<&str> = match ready {
        Some(p) => match &p.warning {
            Some(t) => Some(t.as_str()),
            None => None,
        },
        None => error,
    };
    let overview = match ready {
        Some(p) => p.overview,
        None => false,
    };
    let hidden = match ready {
        Some(p) => if p.overview { Some(p.hidden_nodes) } else { None },
        None => None,
    };
    let notice = mermaid_notice(&w, ready.is_none() && error.is_none(), warning, hidden);
    out.push(notice_line(w.frame_width, notice.as_str()));
    let with_nodes = match ready {
        Some(p) => p.nodes.len() > 0,
        None => false,
    };
    if !complete && with_nodes {
        let mut m = String::from_str("spacing ");
        push_str(&mut m, spacing);
        push_str(&mut m, " · layout units");
        out.push(notice_line(w.frame_width, m.as_str()));
    }
    match mermaid_detail(&w, overview, complete, cached) {
        Some(d) => out.push(notice_line(w.frame_width, d.as_str())),
        None => {},
    }
    out.push(frame_bottom(w.frame_width));
    let ghost expect = block_lines_spec(content@, spec_ready, spec_error, prefix_width, render_width, complete, code_line_numbers, cached, spacing@);
    assert(strings_view(out@) =~= expect);
    (out, crate::document::BlockLayout { prefix_width, rendered_width: w.frame_width })
}

} // verus!
