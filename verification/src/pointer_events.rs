//! The mouse on the document: the wheel scrolls the document or the table
//! of contents, a click follows a table-of-contents entry, opens a link
//! (Ctrl) or copies it (double click or Alt), grabs the scrollbar, or copies
//! the code block under a double click; moving the pointer updates the hover
//! feedback. The open viewer and the path popup take the mouse first.
//! What lies under the pointer (links, table-of-contents entries, code
//! blocks) is measured by the event loop and handed in.
use vstd::prelude::*;
use crate::diagram_keys::{viewer_after_mouse, MouseAction};
use crate::diagram_nav::canvas_cell;
use crate::diagrams::{same_outside_viewer, App, Rect};
use crate::keys::{scrolled_down, scrolled_up};
use crate::pointer::{in_rect, is_in_rect, scrollbar_position};

verus! {

/// Which path the path popup offers.
#[derive(Clone, Copy, Debug, PartialEq, Eq, Structural)]
pub enum PathKind {
    Relative,
    Absolute,
}

/// What lies under the pointer, and the state of the parts of the screen
/// the library does not hold.
#[derive(Clone, Copy, Debug, PartialEq, Eq, Structural)]
pub struct PointerFacts {
    pub path_popup_open: bool,
    pub path_relative_area: Option<Rect>,
    pub path_absolute_area: Option<Rect>,
    pub path_hover: Option<PathKind>,
    /// Another popup is open.
    pub other_popup_open: bool,
    /// The pointer is over the table of contents.
    pub in_toc_area: bool,
    /// The table-of-contents entry under the pointer.
    pub toc_index: Option<usize>,
    /// The entry the table of contents shows as hovered.
    pub hovered_toc: Option<usize>,
    /// The link under the pointer, by whether it points into the document.
    pub link_internal: Option<bool>,
    /// The link the pointer hovers, by index.
    pub hover_link: Option<usize>,
    /// The code block under the pointer.
    pub code_block: Option<usize>,
    /// Cells of the scrollbar at the content area's right edge.
    pub scrollbar_width: u16,
    /// Lines one wheel step scrolls.
    pub scroll_step: usize,
    /// Longest gap between the clicks of a double click, in ms.
    pub double_click_ms: u64,
}

/// What the event loop does after a mouse event.
#[derive(Clone, Copy, Debug, PartialEq, Eq, Structural)]
pub enum MouseCommand {
    Nothing,
    ScrollTocUp(usize),
    ScrollTocDown(usize),
    /// Scrolls the document to a table-of-contents entry.
    ScrollToTocEntry(usize),
    /// Opens the link under the pointer (an internal one opens the file).
    OpenLink(bool),
    /// Copies the link under the pointer (an internal one copies the file
    /// name) and reports the outcome.
    CopyLink(bool),
    CopyCodeBlock(usize),
    CopyPathRelative,
    CopyPathAbsolute,
    SetPathHover(Option<PathKind>),
    SetTocHover(Option<usize>),
}

/// The event loop's command and whether the screen changed.
#[derive(Clone, Copy, Debug, PartialEq, Eq, Structural)]
pub struct MouseOutcome {
    pub command: MouseCommand,
    pub changed: bool,
}

/// Whether `(col, row)` lies on the scrollbar of `area`.
pub open spec fn on_scrollbar(area: Rect, sw: u16, col: u16, row: u16) -> bool {
    area.width > 0 && area.x + area.width - sw <= col && col < area.x + area.width && area.y <= row && row
        < area.y + area.height
}

/// Whether `(col, row)` lies on the scrollbar of `area`.
pub fn is_on_scrollbar(area: Rect, sw: u16, col: u16, row: u16) -> (r: bool)
    ensures
        r == on_scrollbar(area, sw, col, row),
{
    let right = area.x as u32 + area.width as u32;
    area.width > 0 && right <= col as u32 + sw as u32 && (col as u32) < right && area.y <= row && (row as u32) < area.y as u32
        + area.height as u32
}

/// A second click on the same cell soon enough after the first.
pub open spec fn double_click(a: App, col: u16, row: u16, now: u64, limit: u64) -> bool {
    a.last_click matches Some(c) && c.0 == col && c.1 == row && now >= c.2 && now - c.2 < limit
}

/// `a` with the scrollbar grabbed and the document scrolled to `row`.
pub open spec fn scrollbar_grabbed(a: App, row: u16) -> App {
    let g = App { scrollbar_dragging: true, ..a };
    match scrollbar_position(g.content_area, g.max_scroll, row) {
        Some(p) => App { scroll: p, ..g },
        None => g,
    }
}

/// The path popup's hover under the pointer.
pub open spec fn path_hover_at(f: PointerFacts, col: u16, row: u16) -> Option<PathKind> {
    if f.path_relative_area matches Some(r) && in_rect(r, col, row) {
        Some(PathKind::Relative)
    } else if f.path_absolute_area matches Some(r) && in_rect(r, col, row) {
        Some(PathKind::Absolute)
    } else {
        None
    }
}

pub open spec fn outcome(command: MouseCommand, changed: bool) -> MouseOutcome {
    MouseOutcome { command, changed }
}

/// A left click on the document (no viewer, no popup); `a` already holds
/// the new pointer position and the click.
pub open spec fn document_click(a: App, b: App, col: u16, row: u16, ctrl: bool, alt: bool, dbl: bool, f: PointerFacts, r: MouseOutcome) -> bool {
    if f.toc_index is Some {
        b == a && r == outcome(MouseCommand::ScrollToTocEntry(f.toc_index->0), true)
    } else if f.link_internal is Some {
        if ctrl {
            b == a && r == outcome(MouseCommand::OpenLink(f.link_internal->0), true)
        } else if dbl || alt {
            b == (App { last_click: None, ..a }) && r == outcome(MouseCommand::CopyLink(f.link_internal->0), true)
        } else {
            b == a && r == outcome(MouseCommand::Nothing, false)
        }
    } else if on_scrollbar(a.content_area, f.scrollbar_width, col, row) {
        b == scrollbar_grabbed(a, row) && r == outcome(MouseCommand::Nothing, true)
    } else if dbl && f.code_block is Some {
        b == (App { code_select: f.code_block, last_click: None, ..a }) && r == outcome(
            MouseCommand::CopyCodeBlock(f.code_block->0),
            true,
        )
    } else {
        b == a && r == outcome(MouseCommand::Nothing, false)
    }
}

/// The state and command after a mouse event on the document view.
pub open spec fn mouse_step_spec(a: App, b: App, m: MouseAction, col: u16, row: u16, ctrl: bool, alt: bool, now: u64, f: PointerFacts, r: MouseOutcome) -> bool {
    let a1 = App { mouse_position: (col, row), ..a };
    let dbl = double_click(a, col, row, now, f.double_click_ms);
    let clicked = App { last_click: Some((col, row, now)), ..a1 };
    match a.diagrams.viewer {
        Some(v) => {
            &&& r == outcome(MouseCommand::Nothing, true)
            &&& b.diagrams.viewer == Some(viewer_after_mouse(v, m, col, row))
            &&& same_outside_viewer(b, a1)
        },
        None => {
            &&& b.diagrams.viewer is None
            &&& if f.path_popup_open {
                match m {
                    MouseAction::LeftDown => if dbl && path_hover_at(f, col, row) is Some {
                        b == (App { last_click: None, ..clicked }) && r == outcome(
                            if path_hover_at(f, col, row) == Some(PathKind::Relative) {
                                MouseCommand::CopyPathRelative
                            } else {
                                MouseCommand::CopyPathAbsolute
                            },
                            true,
                        )
                    } else {
                        b == clicked && r == outcome(MouseCommand::Nothing, false)
                    },
                    MouseAction::Moved => b == a1 && r == outcome(
                        MouseCommand::SetPathHover(path_hover_at(f, col, row)),
                        path_hover_at(f, col, row) != f.path_hover,
                    ),
                    _ => b == a1 && r == outcome(MouseCommand::Nothing, false),
                }
            } else if f.other_popup_open {
                r == outcome(MouseCommand::Nothing, false) && b == (if m == MouseAction::Up {
                    App { scrollbar_dragging: false, ..a1 }
                } else {
                    a1
                })
            } else {
                match m {
                    MouseAction::ScrollUp => if f.in_toc_area {
                        b == a1 && r == outcome(MouseCommand::ScrollTocUp(f.scroll_step), true)
                    } else {
                        b == (App { code_select: None, scroll: scrolled_up(a1, f.scroll_step), hovered_link: None, ..a1 })
                            && r == outcome(MouseCommand::SetTocHover(None), true)
                    },
                    MouseAction::ScrollDown => if f.in_toc_area {
                        b == a1 && r == outcome(MouseCommand::ScrollTocDown(f.scroll_step), true)
                    } else {
                        b == (App { code_select: None, scroll: scrolled_down(a1, f.scroll_step), hovered_link: None, ..a1 })
                            && r == outcome(MouseCommand::SetTocHover(None), true)
                    },
                    MouseAction::LeftDown => document_click(clicked, b, col, row, ctrl, alt, dbl, f, r),
                    MouseAction::OtherDown => if on_scrollbar(a1.content_area, f.scrollbar_width, col, row) {
                        b == scrollbar_grabbed(a1, row) && r == outcome(MouseCommand::Nothing, true)
                    } else {
                        b == a1 && r == outcome(MouseCommand::Nothing, false)
                    },
                    MouseAction::Drag => if a.scrollbar_dragging {
                        b == scrollbar_grabbed(a1, row) && r == outcome(MouseCommand::Nothing, true)
                    } else {
                        b == a1 && r == outcome(MouseCommand::Nothing, false)
                    },
                    MouseAction::Up => b == (App { scrollbar_dragging: false, ..a1 }) && r == outcome(MouseCommand::Nothing, false),
                    MouseAction::Moved => if a.mouse_position != (col, row) {
                        &&& b == (App { hovered_link: f.hover_link, ..a1 })
                        &&& r == outcome(
                            MouseCommand::SetTocHover(f.toc_index),
                            on_scrollbar(a.content_area, f.scrollbar_width, a.mouse_position.0, a.mouse_position.1)
                                || on_scrollbar(a.content_area, f.scrollbar_width, col, row) || a.hovered_link != f.hover_link
                                || f.hovered_toc != f.toc_index,
                        )
                    } else {
                        b == a1 && r == outcome(MouseCommand::Nothing, false)
                    },
                    _ => b == a1 && r == outcome(MouseCommand::Nothing, false),
                }
            }
        },
    }
}

impl App {
    fn grab_scrollbar(&mut self, row: u16)
        ensures
            *final(self) == scrollbar_grabbed(*old(self), row),
    {
        self.scrollbar_dragging = true;
        self.scrollbar_scroll_to(row);
    }

    /// One mouse event at `(column, row)` at time `now` (ms), with Ctrl or
    /// Alt held as given: see `mouse_step_spec`.
    pub fn mouse_step(&mut self, m: MouseAction, column: u16, row: u16, ctrl: bool, alt: bool, now: u64, f: &PointerFacts) -> (r: MouseOutcome)
        requires
            match old(self).diagrams.viewer {
                Some(v) => !v.source_mode && v.area.spec_contains(column, row) ==> canvas_cell(
                    v,
                    column,
                    row,
                ).0 <= usize::MAX && canvas_cell(v, column, row).1 <= usize::MAX,
                None => true,
            },
        ensures
            mouse_step_spec(*old(self), *final(self), m, column, row, ctrl, alt, now, *f, r),
    {
        let prev = self.mouse_position;
        if self.diagrams.viewer.is_some() {
            self.handle_diagram_mouse(m, column, row);
            return MouseOutcome { command: MouseCommand::Nothing, changed: true };
        }
        self.mouse_position = (column, row);
        let dbl = match self.last_click {
            Some((c, rw, t)) => c == column && rw == row && now >= t && now - t < f.double_click_ms,
            None => false,
        };
        let hover = match f.path_relative_area {
            Some(a) if is_in_rect(a, column, row) => Some(PathKind::Relative),
            _ => match f.path_absolute_area {
                Some(a) if is_in_rect(a, column, row) => Some(PathKind::Absolute),
                _ => None,
            },
        };
        if f.path_popup_open {
            return match m {
                MouseAction::LeftDown => {
                    self.last_click = Some((column, row, now));
                    match (dbl, hover) {
                        (true, Some(k)) => {
                            self.last_click = None;
                            MouseOutcome {
                                command: if k == PathKind::Relative {
                                    MouseCommand::CopyPathRelative
                                } else {
                                    MouseCommand::CopyPathAbsolute
                                },
                                changed: true,
                            }
                        },
                        _ => MouseOutcome { command: MouseCommand::Nothing, changed: false },
                    }
                },
                MouseAction::Moved => MouseOutcome { command: MouseCommand::SetPathHover(hover), changed: hover != f.path_hover },
                _ => MouseOutcome { command: MouseCommand::Nothing, changed: false },
            };
        }
        if f.other_popup_open {
            if m == MouseAction::Up {
                self.scrollbar_dragging = false;
            }
            return MouseOutcome { command: MouseCommand::Nothing, changed: false };
        }
        match m {
            MouseAction::ScrollUp | MouseAction::ScrollDown => {
                if f.in_toc_area {
                    return MouseOutcome {
                        command: if m == MouseAction::ScrollUp {
                            MouseCommand::ScrollTocUp(f.scroll_step)
                        } else {
                            MouseCommand::ScrollTocDown(f.scroll_step)
                        },
                        changed: true,
                    };
                }
                self.code_select = None;
                let n = f.scroll_step;
                if m == MouseAction::ScrollUp {
                    self.scroll = if self.scroll >= n { self.scroll - n } else { 0 };
                } else if self.scroll < self.max_scroll {
                    self.scroll = if n < self.max_scroll - self.scroll { self.scroll + n } else { self.max_scroll };
                }
                self.hovered_link = None;
                MouseOutcome { command: MouseCommand::SetTocHover(None), changed: true }
            },
            MouseAction::LeftDown => {
                self.last_click = Some((column, row, now));
                if let Some(i) = f.toc_index {
                    return MouseOutcome { command: MouseCommand::ScrollToTocEntry(i), changed: true };
                }
                if let Some(internal) = f.link_internal {
                    if ctrl {
                        return MouseOutcome { command: MouseCommand::OpenLink(internal), changed: true };
                    } else if dbl || alt {
                        self.last_click = None;
                        return MouseOutcome { command: MouseCommand::CopyLink(internal), changed: true };
                    } else {
                        return MouseOutcome { command: MouseCommand::Nothing, changed: false };
                    }
                }
                if is_on_scrollbar(self.content_area, f.scrollbar_width, column, row) {
                    self.grab_scrollbar(row);
                    return MouseOutcome { command: MouseCommand::Nothing, changed: true };
                }
                if dbl {
                    if let Some(k) = f.code_block {
                        self.code_select = Some(k);
                        self.last_click = None;
                        return MouseOutcome { command: MouseCommand::CopyCodeBlock(k), changed: true };
                    }
                }
                MouseOutcome { command: MouseCommand::Nothing, changed: false }
            },
            MouseAction::OtherDown => {
                if is_on_scrollbar(self.content_area, f.scrollbar_width, column, row) {
                    self.grab_scrollbar(row);
                    MouseOutcome { command: MouseCommand::Nothing, changed: true }
                } else {
                    MouseOutcome { command: MouseCommand::Nothing, changed: false }
                }
            },
            MouseAction::Drag => {
                if self.scrollbar_dragging {
                    self.grab_scrollbar(row);
                    MouseOutcome { command: MouseCommand::Nothing, changed: true }
                } else {
                    MouseOutcome { command: MouseCommand::Nothing, changed: false }
                }
            },
            MouseAction::Up => {
                self.scrollbar_dragging = false;
                MouseOutcome { command: MouseCommand::Nothing, changed: false }
            },
            MouseAction::Moved => {
                if prev.0 != column || prev.1 != row {
                    let area = self.content_area;
                    let scrollbar_changed = is_on_scrollbar(area, f.scrollbar_width, prev.0, prev.1)
                        || is_on_scrollbar(area, f.scrollbar_width, column, row);
                    let hover_changed = self.hovered_link != f.hover_link;
                    self.hovered_link = f.hover_link;
                    MouseOutcome {
                        command: MouseCommand::SetTocHover(f.toc_index),
                        changed: scrollbar_changed || hover_changed || f.hovered_toc != f.toc_index,
                    }
                } else {
                    MouseOutcome { command: MouseCommand::Nothing, changed: false }
                }
            },
            _ => MouseOutcome { command: MouseCommand::Nothing, changed: false },
        }
    }
}

} // verus!
