//! Mouse hit-testing on the document view: the table of contents, the
//! scrollbar and the rendered line under the pointer.
use vstd::prelude::*;
use crate::diagrams::{App, Rect};
use crate::text::{chars_of, starts_with_lit, starts_with_spec, string_from_chars, sub_chars};

verus! {

/// Whether the cell lies in `rect` (computed without overflow).
pub open spec fn in_rect(rect: Rect, col: u16, row: u16) -> bool {
    col >= rect.x && col < rect.x + rect.width && row >= rect.y && row < rect.y + rect.height
}

pub fn is_in_rect(rect: Rect, col: u16, row: u16) -> (r: bool)
    ensures
        r == in_rect(rect, col, row),
{
    col >= rect.x && (col as u32) < rect.x as u32 + rect.width as u32 && row >= rect.y && (row as u32)
        < rect.y as u32 + rect.height as u32
}

/// Whether the pointer is over the table of contents list, when shown.
pub fn mouse_in_toc_area(toc_list_area: Option<Rect>, col: u16, row: u16) -> (r: bool)
    ensures
        r == (toc_list_area matches Some(a) && in_rect(a, col, row)),
{
    match toc_list_area {
        Some(area) => is_in_rect(area, col, row),
        None => false,
    }
}

/// The table of contents entry under the pointer: the list without its
/// right border, offset by the list's scroll.
pub open spec fn toc_index_at(area: Rect, entries_len: usize, scroll_offset: usize, col: u16, row: u16) -> Option<usize> {
    let inner = Rect { width: if area.width >= 1 { (area.width - 1) as u16 } else { 0u16 }, ..area };
    if !in_rect(inner, col, row) {
        None
    } else {
        let idx = (row - area.y) + scroll_offset;
        if idx < entries_len {
            Some(idx as usize)
        } else {
            None
        }
    }
}

pub fn toc_display_index_at(area: Rect, entries_len: usize, scroll_offset: usize, col: u16, row: u16) -> (r: Option<usize>)
    ensures
        r == toc_index_at(area, entries_len, scroll_offset, col, row),
{
    let inner = Rect { width: if area.width >= 1 { area.width - 1 } else { 0 }, ..area };
    if !is_in_rect(inner, col, row) {
        return None;
    }
    let rel = (row - area.y) as usize;
    if rel >= entries_len || scroll_offset >= entries_len - rel {
        return None;
    }
    Some(rel + scroll_offset)
}

/// The scroll position a scrollbar click on `row` asks for: the row's
/// offset in the content area scaled to the scroll range. None above the
/// content or when the area is too short to scale.
pub open spec fn scrollbar_position(content_area: Rect, max_scroll: usize, row: u16) -> Option<usize> {
    let top = content_area.y as int;
    let h = content_area.height as int;
    if row >= top && h > 1 {
        let offset = if row - top < h - 1 {
            row - top
        } else {
            h - 1
        };
        Some((offset * max_scroll / (h - 1)) as usize)
    } else {
        None
    }
}

pub fn scrollbar_scroll_position(content_area: Rect, max_scroll: usize, row: u16) -> (r: Option<usize>)
    ensures
        r == scrollbar_position(content_area, max_scroll, row),
{
    let top = content_area.y as u128;
    let h = content_area.height as u128;
    let row = row as u128;
    if row >= top && h > 1 {
        let offset = if row - top < h - 1 {
            row - top
        } else {
            h - 1
        };
        proof {
            assert(offset * max_scroll <= (h - 1) * max_scroll) by (nonlinear_arith)
                requires
                    offset <= h - 1,
            ;
            assert((h - 1) * max_scroll <= 0xffff * 0xffff_ffff_ffff_ffffu128) by (nonlinear_arith)
                requires
                    h - 1 <= 0xffff,
                    max_scroll <= 0xffff_ffff_ffff_ffffu128,
            ;
            assert(offset * max_scroll / (h - 1) <= max_scroll) by (nonlinear_arith)
                requires
                    offset <= h - 1,
                    h - 1 > 0,
            ;
        }
        let pos = offset * (max_scroll as u128) / (h - 1);
        Some(pos as usize)
    } else {
        None
    }
}

impl App {
    /// Scrolls to where a scrollbar click or drag on `row` points.
    pub fn scrollbar_scroll_to(&mut self, row: u16)
        ensures
            match scrollbar_position(old(self).content_area, old(self).max_scroll, row) {
                Some(p) => *final(self) == (App { scroll: p, ..*old(self) }),
                None => *final(self) == *old(self),
            },
    {
        if let Some(p) = scrollbar_scroll_position(self.content_area, self.max_scroll, row) {
            self.scroll = p;
        }
    }
}

/// Screen rows a rendered line of `width` cells takes at `content_width`.
pub open spec fn wrapped_rows(width: usize, content_width: usize) -> int {
    if width == 0 {
        1
    } else {
        (width + content_width - 1) / content_width as int
    }
}

/// The line under relative row `rel_row`, walking the lines from `idx`
/// with `visual` rows already used; the walk gives up once it has passed
/// the area's height.
pub open spec fn line_at_row(widths: Seq<usize>, idx: int, visual: int, rel_row: int, content_width: usize, height: int) -> Option<usize>
    decreases widths.len() - idx,
{
    if idx < 0 || idx >= widths.len() {
        None
    } else {
        let rows = wrapped_rows(widths[idx], content_width);
        if rel_row < visual + rows {
            Some(idx as usize)
        } else if visual + rows > height {
            None
        } else {
            line_at_row(widths, idx + 1, visual + rows, rel_row, content_width, height)
        }
    }
}

/// Where rendered text starts and how wide it is, inside `area`.
pub open spec fn text_box(area: Rect, gutter: u16, padding: u16, scrollbar: u16) -> (int, int) {
    let inner_x = area.x + padding + gutter;
    let w1 = if area.width >= 2 * padding { area.width - 2 * padding } else { 0 };
    let w2 = if w1 >= scrollbar { w1 - scrollbar } else { 0 };
    let w3 = if w2 >= gutter { w2 - gutter } else { 0 };
    (inner_x, w3)
}

/// The rendered line under the pointer, given each line's display width.
pub open spec fn line_index_at(area: Rect, gutter: u16, padding: u16, scrollbar: u16, widths: Seq<usize>, scroll: usize, col: u16, row: u16) -> Option<usize> {
    let (inner_x, inner_w) = text_box(area, gutter, padding, scrollbar);
    if col < inner_x || col >= inner_x + inner_w || row < area.y || row >= area.y + area.height {
        None
    } else {
        let cw = if inner_w > 1 { inner_w as usize } else { 1usize };
        line_at_row(widths, scroll as int, 0, row - area.y, cw, area.height as int)
    }
}

pub fn line_idx_at(
    area: Rect,
    gutter: u16,
    padding: u16,
    scrollbar: u16,
    line_widths: &Vec<usize>,
    scroll: usize,
    col: u16,
    row: u16,
) -> (r: Option<usize>)
    requires
        area.x + padding + gutter <= u16::MAX,
    ensures
        r == line_index_at(area, gutter, padding, scrollbar, line_widths@, scroll, col, row),
{
    let inner_x = area.x + padding + gutter;
    let w1: u16 = if area.width as u32 >= 2 * padding as u32 { area.width - 2 * padding } else { 0 };
    let w2: u16 = if w1 >= scrollbar { w1 - scrollbar } else { 0 };
    let inner_w: u16 = if w2 >= gutter { w2 - gutter } else { 0 };
    if col < inner_x || col as u32 >= inner_x as u32 + inner_w as u32 || row < area.y || row as u32
        >= area.y as u32 + area.height as u32 {
        return None;
    }
    let rel_row = (row - area.y) as usize;
    let cw: usize = if inner_w > 1 { inner_w as usize } else { 1 };
    let height = area.height as usize;
    let mut visual: usize = 0;
    let mut idx = scroll;
    while idx < line_widths.len()
        invariant
            visual <= height,
            rel_row < height,
            cw >= 1,
            height <= u16::MAX,
            line_index_at(area, gutter, padding, scrollbar, line_widths@, scroll, col, row)
                == line_at_row(line_widths@, idx as int, visual as int, rel_row as int, cw, height as int),
        decreases line_widths@.len() - idx,
    {
        let w = line_widths[idx];
        let q = w / cw;
        proof {
            if w % cw != 0 {
                assert(cw > 1);
                assert(q < usize::MAX) by (nonlinear_arith)
                    requires
                        cw > 1,
                        q == w / cw,
                ;
            }
        }
        let rows: usize = if w == 0 {
            1
        } else if w % cw == 0 {
            q
        } else {
            q + 1
        };
        proof {
            if w > 0 {
                assert(rows == (w + cw - 1) / cw as int) by (nonlinear_arith)
                    requires
                        cw >= 1,
                        q == w / cw,
                        rows == q + if w % cw == 0 { 0int } else { 1 },
                ;
            }
        }
        if rel_row < visual || rows > rel_row - visual {
            return Some(idx);
        }
        if rows > height - visual {
            return None;
        }
        visual = visual + rows;
        idx = idx + 1;
    }
    None
}

/// `path` without the verbatim `\\?\` prefix on Windows.
pub open spec fn unc_stripped(path: Seq<char>, windows: bool) -> Seq<char> {
    if windows && starts_with_spec(path, "\\\\?\\"@) {
        path.skip(4)
    } else {
        path
    }
}

pub fn strip_unc_prefix(path: &str, windows: bool) -> (r: String)
    ensures
        r@ == unc_stripped(path@, windows),
{
    let cs = chars_of(path);
    if windows && starts_with_lit(cs.as_slice(), "\\\\?\\") {
        proof {
            reveal_strlit("\\\\?\\");
        }
        let rest = sub_chars(cs.as_slice(), 4, cs.len());
        assert(rest@ =~= path@.skip(4));
        return string_from_chars(rest.as_slice());
    }
    string_from_chars(cs.as_slice())
}

} // verus!
