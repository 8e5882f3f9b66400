//! The frames drawn around code, LaTeX and other special blocks: their
//! widths, the labelled top edge, the bottom edge and the line gutters.
use vstd::prelude::*;
use crate::diagram_screen::{push_decimal_text, push_str};
use crate::mermaid_block::{repeat_char, repeated, widest, widest_row};
use crate::numbers::{decimal, decimal_chars};
use crate::preview::{add_sat, sat_sub};
use crate::text::{display_width, strings_view, unicode_width_of};
use crate::width::{sat_add, spaces};

verus! {

/// The bar of a code line's gutter.
pub const CODE_BLOCK_GUTTER: &'static str = "│";

/// The bar of a wrapped continuation row's gutter.
pub const CODE_BLOCK_GUTTER_WRAP: &'static str = "┊";

/// Narrowest special block, in cells inside its edges.
pub const MIN_SPECIAL_INNER: usize = 44;

/// The measures of a special block's frame.
#[derive(Clone, Copy, Debug, PartialEq, Eq, Structural)]
pub struct SpecialFrame {
    /// Cells of a line number (0 without numbers).
    pub digit_width: usize,
    /// Cells of the gutter, bars included.
    pub gutter_width: usize,
    /// Cells between the frame's left and right edges.
    pub inner_width: usize,
    /// Cells a content row may fill.
    pub content_width: usize,
    /// Blanks before each row of a centred block.
    pub center_pad: usize,
}

pub open spec fn max_of(a: usize, b: usize) -> usize {
    if a > b { a } else { b }
}

pub open spec fn min_of(a: usize, b: usize) -> usize {
    if a < b { a } else { b }
}

/// The frame of a special block labelled `label` around `lines`, with
/// `available_width` cells after its prefix.
pub open spec fn special_frame_spec(
    label: Seq<char>,
    lines: Seq<Seq<char>>,
    available_width: usize,
    show_line_numbers: bool,
    center: bool,
) -> SpecialFrame {
    let total = if lines.len() > 1 { lines.len() as nat } else { 1 };
    let digit_width: usize = if show_line_numbers { decimal(total).len() as usize } else { 0 };
    let gutter_width: usize = if show_line_numbers { sat_add(digit_width, 2) } else { 1 };
    let max_text = widest(lines);
    let label_cells = sat_add(unicode_width_of(label), 3);
    let max_inner = max_of(sat_sub(available_width, 2), label_cells);
    let min_inner = min_of(max_of(label_cells, MIN_SPECIAL_INNER), max_inner);
    let inner_width = min_of(max_of(sat_add(sat_add(max_text, 2), gutter_width), min_inner), max_inner);
    let content_width = sat_sub(inner_width, sat_add(gutter_width, 1));
    SpecialFrame {
        digit_width,
        gutter_width,
        inner_width,
        content_width,
        center_pad: if center { (sat_sub(content_width, max_text) / 2) as usize } else { 0 },
    }
}

/// The labelled top edge of a block `inner_width` cells wide.
pub open spec fn frame_header_spec(label: Seq<char>, inner_width: usize) -> Seq<char> {
    "┌─ "@ + label + " "@ + repeated('─', sat_sub(inner_width, sat_add(unicode_width_of(label), 3)) as nat) + "┐"@
}

/// The bottom edge; with line numbers it marks where the gutter ends.
pub open spec fn frame_footer_spec(inner_width: usize, gutter_width: usize, show_line_numbers: bool) -> Seq<char> {
    if show_line_numbers {
        "└"@ + repeated('─', sat_sub(gutter_width, 2) as nat) + "┴"@ + repeated(
            '─',
            sat_sub(inner_width, sat_sub(gutter_width, 1)) as nat,
        ) + "┘"@
    } else {
        "└"@ + repeated('─', inner_width as nat) + "┘"@
    }
}

/// The gutter of a content line (`first`) or of a continuation row: the
/// line number right-aligned in `digit_width` cells between bars, blanks in
/// its place, or a single bar.
pub open spec fn line_gutter_spec(show_line_numbers: bool, digit_width: usize, index: usize, first: bool) -> Seq<char> {
    if show_line_numbers {
        let d = decimal(index as nat + 1);
        if first {
            "│"@ + spaces(if d.len() < digit_width { (digit_width - d.len()) as nat } else { 0 }) + d + "│"@
        } else {
            "│"@ + spaces(digit_width as nat) + "│"@
        }
    } else if first {
        CODE_BLOCK_GUTTER@
    } else {
        CODE_BLOCK_GUTTER_WRAP@
    }
}

fn max_usize(a: usize, b: usize) -> (r: usize)
    ensures
        r == max_of(a, b),
{
    if a > b { a } else { b }
}

fn min_usize(a: usize, b: usize) -> (r: usize)
    ensures
        r == min_of(a, b),
{
    if a < b { a } else { b }
}

fn sub_or_zero(a: usize, b: usize) -> (r: usize)
    ensures
        r == sat_sub(a, b),
{
    if a >= b { a - b } else { 0 }
}

/// The measures of a special block's frame.
pub fn special_frame(
    label: &str,
    lines: &Vec<String>,
    available_width: usize,
    show_line_numbers: bool,
    center: bool,
) -> (r: SpecialFrame)
    ensures
        r == special_frame_spec(label@, strings_view(lines@), available_width, show_line_numbers, center),
{
    let total = if lines.len() > 1 { lines.len() } else { 1 };
    let digit_width = if show_line_numbers { decimal_chars(total).len() } else { 0 };
    let gutter_width = if show_line_numbers { add_sat(digit_width, 2) } else { 1 };
    let max_text = widest_row(lines);
    let label_cells = add_sat(display_width(label), 3);
    let max_inner = max_usize(sub_or_zero(available_width, 2), label_cells);
    let min_inner = min_usize(max_usize(label_cells, MIN_SPECIAL_INNER), max_inner);
    let inner_width = min_usize(max_usize(add_sat(add_sat(max_text, 2), gutter_width), min_inner), max_inner);
    let content_width = sub_or_zero(inner_width, add_sat(gutter_width, 1));
    SpecialFrame {
        digit_width,
        gutter_width,
        inner_width,
        content_width,
        center_pad: if center { sub_or_zero(content_width, max_text) / 2 } else { 0 },
    }
}

/// The labelled top edge of a block.
pub fn frame_header(label: &str, inner_width: usize) -> (r: String)
    ensures
        r@ == frame_header_spec(label@, inner_width),
{
    let mut m = String::from_str("┌─ ");
    push_str(&mut m, label);
    push_str(&mut m, " ");
    let bar = repeat_char('─', sub_or_zero(inner_width, add_sat(display_width(label), 3)));
    push_str(&mut m, bar.as_str());
    push_str(&mut m, "┐");
    m
}

/// The bottom edge of a block.
pub fn frame_footer(inner_width: usize, gutter_width: usize, show_line_numbers: bool) -> (r: String)
    ensures
        r@ == frame_footer_spec(inner_width, gutter_width, show_line_numbers),
{
    let mut m = String::from_str("└");
    if show_line_numbers {
        let left = repeat_char('─', sub_or_zero(gutter_width, 2));
        push_str(&mut m, left.as_str());
        push_str(&mut m, "┴");
        let right = repeat_char('─', sub_or_zero(inner_width, sub_or_zero(gutter_width, 1)));
        push_str(&mut m, right.as_str());
    } else {
        let bar = repeat_char('─', inner_width);
        push_str(&mut m, bar.as_str());
    }
    push_str(&mut m, "┘");
    m
}

/// The gutter of line `index` (counted from zero), on its first row or on
/// a continuation row.
pub fn line_gutter(show_line_numbers: bool, digit_width: usize, index: usize, first: bool) -> (r: String)
    requires
        index < usize::MAX,
    ensures
        r@ == line_gutter_spec(show_line_numbers, digit_width, index, first),
{
    if show_line_numbers {
        let mut m = String::from_str("│");
        if first {
            let d = decimal_chars(index + 1);
            let pad = if d.len() < digit_width { digit_width - d.len() } else { 0 };
            let blanks = repeat_char(' ', pad);
            assert(blanks@ =~= spaces(pad as nat));
            push_str(&mut m, blanks.as_str());
            push_decimal_text(&mut m, index + 1);
        } else {
            let blanks = repeat_char(' ', digit_width);
            assert(blanks@ =~= spaces(digit_width as nat));
            push_str(&mut m, blanks.as_str());
        }
        push_str(&mut m, "│");
        m
    } else if first {
        String::from_str(CODE_BLOCK_GUTTER)
    } else {
        String::from_str(CODE_BLOCK_GUTTER_WRAP)
    }
}

/// The label of a code block: its language, or `text`.
pub fn code_block_label(lang: &str) -> (r: String)
    ensures
        r@ == if lang@.len() == 0 { "text"@ } else { lang@ },
{
    if lang.unicode_len() == 0 {
        String::from_str("text")
    } else {
        String::from_str(lang)
    }
}

/// The gutter of a code block: the digits and two bars, or one bar.
pub fn code_gutter_width(show_line_numbers: bool, digit_width: usize) -> (r: usize)
    ensures
        r == if show_line_numbers { sat_add(digit_width, 2) } else { 1 },
{
    if show_line_numbers { add_sat(digit_width, 2) } else { 1 }
}

} // verus!
