//! Keys and mouse events while the diagram viewer is open: help first,
//! then the search prompt, then navigation and view controls.
use vstd::prelude::*;
use crate::diagram_controls::controlled;
use crate::diagram_nav::{canvas_cell, clicked, page_step, panned, selected_next};
use crate::diagram_search::{edited_query, moved_search, search_confirmed};
use crate::diagrams::{same_outside_viewer, wrapping_inc, App, DiagramAction, DiagramViewer};

verus! {

/// A key as the viewer distinguishes it.
#[derive(Clone, Copy, Debug, PartialEq, Eq, Structural)]
pub enum KeyCode {
    Char(char),
    Esc,
    Enter,
    Backspace,
    Up,
    Down,
    Left,
    Right,
    Tab,
    BackTab,
    PageUp,
    PageDown,
    Home,
    End,
    Other,
}

/// What a key asks the viewer to do.
#[derive(Clone, Copy, Debug, PartialEq, Eq, Structural)]
pub enum DiagramCommand {
    ToggleHelp,
    CancelSearch,
    ConfirmSearch,
    EditSearch(Option<char>),
    MoveSearch(bool),
    Close,
    Pan(isize, isize),
    Page(bool),
    ResetPan,
    SelectNext(bool),
    BeginSearch,
    Control(char),
    Nothing,
}

/// The viewer command for a key: with help shown only Esc and `?` (close
/// it) count; while searching keys edit and move the search; otherwise
/// keys close, pan, select, search or apply a view control.
pub open spec fn diagram_key_spec(help: bool, searching: bool, key: KeyCode, ctrl: bool) -> DiagramCommand {
    if help {
        if key == KeyCode::Esc || key == KeyCode::Char('?') {
            DiagramCommand::ToggleHelp
        } else {
            DiagramCommand::Nothing
        }
    } else if searching {
        match key {
            KeyCode::Esc => DiagramCommand::CancelSearch,
            KeyCode::Char(c) => if c == 'c' && ctrl {
                DiagramCommand::CancelSearch
            } else if !ctrl {
                DiagramCommand::EditSearch(Some(c))
            } else {
                DiagramCommand::Nothing
            },
            KeyCode::Enter => DiagramCommand::ConfirmSearch,
            KeyCode::Backspace => DiagramCommand::EditSearch(None),
            KeyCode::Down | KeyCode::Tab => DiagramCommand::MoveSearch(false),
            KeyCode::Up | KeyCode::BackTab => DiagramCommand::MoveSearch(true),
            _ => DiagramCommand::Nothing,
        }
    } else {
        match key {
            KeyCode::Esc => DiagramCommand::Close,
            KeyCode::Char(c) => if c == 'q' {
                DiagramCommand::Close
            } else if c == 'c' && ctrl {
                DiagramCommand::Close
            } else if c == 'h' {
                DiagramCommand::Pan(-3isize, 0isize)
            } else if c == 'l' {
                DiagramCommand::Pan(3isize, 0isize)
            } else if c == 'k' {
                DiagramCommand::Pan(0isize, -1isize)
            } else if c == 'j' {
                DiagramCommand::Pan(0isize, 1isize)
            } else if c == '/' {
                DiagramCommand::BeginSearch
            } else if c == '?' {
                DiagramCommand::ToggleHelp
            } else if !ctrl && (c == 'c' || c == 'd' || c == 'o' || c == ' ' || c == 'a' || c == 'f'
                || c == 's' || c == 'y') {
                DiagramCommand::Control(c)
            } else {
                DiagramCommand::Nothing
            },
            KeyCode::Left => DiagramCommand::Pan(-3isize, 0isize),
            KeyCode::Right => DiagramCommand::Pan(3isize, 0isize),
            KeyCode::Up => DiagramCommand::Pan(0isize, -1isize),
            KeyCode::Down => DiagramCommand::Pan(0isize, 1isize),
            KeyCode::PageUp => DiagramCommand::Page(false),
            KeyCode::PageDown => DiagramCommand::Page(true),
            KeyCode::Home => DiagramCommand::ResetPan,
            KeyCode::Tab => DiagramCommand::SelectNext(false),
            KeyCode::BackTab => DiagramCommand::SelectNext(true),
            _ => DiagramCommand::Nothing,
        }
    }
}

pub fn diagram_key_command(help: bool, searching: bool, key: KeyCode, ctrl: bool) -> (r: DiagramCommand)
    ensures
        r == diagram_key_spec(help, searching, key, ctrl),
{
    if help {
        return if key == KeyCode::Esc || key == KeyCode::Char('?') {
            DiagramCommand::ToggleHelp
        } else {
            DiagramCommand::Nothing
        };
    }
    if searching {
        return match key {
            KeyCode::Esc => DiagramCommand::CancelSearch,
            KeyCode::Char(c) => if c == 'c' && ctrl {
                DiagramCommand::CancelSearch
            } else if !ctrl {
                DiagramCommand::EditSearch(Some(c))
            } else {
                DiagramCommand::Nothing
            },
            KeyCode::Enter => DiagramCommand::ConfirmSearch,
            KeyCode::Backspace => DiagramCommand::EditSearch(None),
            KeyCode::Down | KeyCode::Tab => DiagramCommand::MoveSearch(false),
            KeyCode::Up | KeyCode::BackTab => DiagramCommand::MoveSearch(true),
            _ => DiagramCommand::Nothing,
        };
    }
    match key {
        KeyCode::Esc => DiagramCommand::Close,
        KeyCode::Char(c) => if c == 'q' {
            DiagramCommand::Close
        } else if c == 'c' && ctrl {
            DiagramCommand::Close
        } else if c == 'h' {
            DiagramCommand::Pan(-3, 0)
        } else if c == 'l' {
            DiagramCommand::Pan(3, 0)
        } else if c == 'k' {
            DiagramCommand::Pan(0, -1)
        } else if c == 'j' {
            DiagramCommand::Pan(0, 1)
        } else if c == '/' {
            DiagramCommand::BeginSearch
        } else if c == '?' {
            DiagramCommand::ToggleHelp
        } else if !ctrl && (c == 'c' || c == 'd' || c == 'o' || c == ' ' || c == 'a' || c == 'f' || c
            == 's' || c == 'y') {
            DiagramCommand::Control(c)
        } else {
            DiagramCommand::Nothing
        },
        KeyCode::Left => DiagramCommand::Pan(-3, 0),
        KeyCode::Right => DiagramCommand::Pan(3, 0),
        KeyCode::Up => DiagramCommand::Pan(0, -1),
        KeyCode::Down => DiagramCommand::Pan(0, 1),
        KeyCode::PageUp => DiagramCommand::Page(false),
        KeyCode::PageDown => DiagramCommand::Page(true),
        KeyCode::Home => DiagramCommand::ResetPan,
        KeyCode::Tab => DiagramCommand::SelectNext(false),
        KeyCode::BackTab => DiagramCommand::SelectNext(true),
        _ => DiagramCommand::Nothing,
    }
}

/// The viewer after `f` with everything outside it unchanged.
pub open spec fn viewer_became(old: App, new: App, f: spec_fn(DiagramViewer) -> DiagramViewer) -> bool {
    &&& match old.diagrams.viewer {
        Some(v) => new.diagrams.viewer == Some(f(v)),
        None => new.diagrams.viewer is None,
    }
    &&& same_outside_viewer(new, old)
}

/// The state after performing `cmd` on `old`.
pub open spec fn command_applied(old: App, new: App, cmd: DiagramCommand) -> bool {
    match cmd {
        DiagramCommand::ToggleHelp => viewer_became(old, new, |v: DiagramViewer| DiagramViewer { help: !v.help, ..v }),
        DiagramCommand::CancelSearch => viewer_became(old, new, |v: DiagramViewer| DiagramViewer { search: None, ..v }),
        DiagramCommand::ConfirmSearch => search_confirmed(old, new),
        DiagramCommand::EditSearch(c) => {
            &&& same_outside_viewer(new, old)
            &&& match old.diagrams.viewer {
                Some(v) => match v.search {
                    Some(q) => {
                        &&& new.diagrams.viewer matches Some(f)
                        &&& f == DiagramViewer { search: f.search, search_index: 0, ..v }
                        &&& (f.search matches Some(q2) && q2@ == edited_query(q@, c))
                    },
                    None => new.diagrams.viewer == old.diagrams.viewer,
                },
                None => new.diagrams.viewer is None,
            }
        },
        DiagramCommand::MoveSearch(b) => viewer_became(old, new, |v: DiagramViewer| moved_search(v, b)),
        DiagramCommand::Close => {
            &&& new.diagrams.viewer is None
            &&& new.diagrams.next_request == wrapping_inc(old.diagrams.next_request)
            &&& new.diagrams.actions@ == if old.diagrams.service {
                old.diagrams.actions@.push(DiagramAction::CancelForeground)
            } else {
                old.diagrams.actions@
            }
            &&& new.diagrams.blocks == old.diagrams.blocks
            &&& new.diagrams.options == old.diagrams.options
            &&& new.diagrams.previews == old.diagrams.previews
            &&& new.diagrams.service == old.diagrams.service
            &&& new.diagrams.document == old.diagrams.document
            &&& new.diagrams.max_source_bytes == old.diagrams.max_source_bytes
            &&& crate::diagrams::same_document_view(new, old)
        },
        DiagramCommand::Pan(dx, dy) => viewer_became(old, new, |v: DiagramViewer| panned(v, dx, dy)),
        DiagramCommand::Page(down) => viewer_became(
            old,
            new,
            |v: DiagramViewer| panned(v, 0, if down { page_step(v) } else { (-page_step(v)) as isize }),
        ),
        DiagramCommand::ResetPan => viewer_became(old, new, |v: DiagramViewer| DiagramViewer { x: 0, y: 0, ..v }),
        DiagramCommand::SelectNext(b) => viewer_became(old, new, |v: DiagramViewer| selected_next(v, b)),
        DiagramCommand::BeginSearch => {
            &&& same_outside_viewer(new, old)
            &&& match old.diagrams.viewer {
                Some(v) => {
                    &&& new.diagrams.viewer matches Some(f)
                    &&& f == DiagramViewer { search: f.search, search_index: 0, ..v }
                    &&& (f.search matches Some(q) && q@.len() == 0)
                },
                None => new.diagrams.viewer is None,
            }
        },
        DiagramCommand::Control(c) => controlled(old, new, c),
        DiagramCommand::Nothing => new == old,
    }
}

impl App {
    /// Performs a viewer command.
    pub fn apply_diagram_command(&mut self, cmd: DiagramCommand)
        ensures
            command_applied(*old(self), *final(self), cmd),
    {
        match cmd {
            DiagramCommand::ToggleHelp => self.toggle_diagram_help(),
            DiagramCommand::CancelSearch => self.cancel_diagram_search(),
            DiagramCommand::ConfirmSearch => self.confirm_diagram_search(),
            DiagramCommand::EditSearch(c) => self.edit_diagram_search(c),
            DiagramCommand::MoveSearch(b) => self.move_diagram_search(b),
            DiagramCommand::Close => self.close_diagram(),
            DiagramCommand::Pan(dx, dy) => self.pan_diagram(dx, dy),
            DiagramCommand::Page(down) => self.diagram_page(down),
            DiagramCommand::ResetPan => self.reset_diagram_pan(),
            DiagramCommand::SelectNext(b) => self.select_next_diagram_object(b),
            DiagramCommand::BeginSearch => self.begin_diagram_search(),
            DiagramCommand::Control(c) => self.diagram_control(c),
            DiagramCommand::Nothing => {},
        }
    }

    /// Handles a key while the viewer is open.
    pub fn handle_diagram_key(&mut self, key: KeyCode, ctrl: bool)
        ensures
            command_applied(
                *old(self),
                *final(self),
                diagram_key_spec(
                    old(self).diagrams.viewer matches Some(v) && v.help,
                    old(self).diagrams.viewer matches Some(v) && v.search is Some,
                    key,
                    ctrl,
                ),
            ),
    {
        let help = match &self.diagrams.viewer {
            Some(v) => v.help,
            None => false,
        };
        let searching = self.is_diagram_search();
        let cmd = diagram_key_command(help, searching, key, ctrl);
        self.apply_diagram_command(cmd);
    }
}

/// A mouse event as the viewer distinguishes it.
#[derive(Clone, Copy, Debug, PartialEq, Eq, Structural)]
pub enum MouseAction {
    ScrollUp,
    ScrollDown,
    ScrollLeft,
    ScrollRight,
    LeftDown,
    /// The middle or right button pressed.
    OtherDown,
    /// The pointer moved with a button held.
    Drag,
    /// A button released.
    Up,
    /// The pointer moved.
    Moved,
    Other,
}

/// The viewer after a mouse event: the wheel pans three cells, a left
/// click selects the smallest object under the pointer; with help or the
/// search prompt showing, the mouse does nothing.
pub open spec fn viewer_after_mouse(v: DiagramViewer, m: MouseAction, column: u16, row: u16) -> DiagramViewer {
    if v.help || v.search is Some {
        v
    } else {
        match m {
            MouseAction::ScrollUp => panned(v, 0, -3isize),
            MouseAction::ScrollDown => panned(v, 0, 3isize),
            MouseAction::ScrollLeft => panned(v, -3isize, 0),
            MouseAction::ScrollRight => panned(v, 3isize, 0),
            MouseAction::LeftDown => clicked(v, column, row),
            _ => v,
        }
    }
}

impl App {
    /// Handles a mouse event while the viewer is open; returns whether the
    /// viewer took it (it takes every event while open). The pointer
    /// position is recorded in any case.
    pub fn handle_diagram_mouse(&mut self, m: MouseAction, column: u16, row: u16) -> (handled: bool)
        requires
            match old(self).diagrams.viewer {
                Some(v) => !v.source_mode && v.area.spec_contains(column, row) ==> canvas_cell(
                    v,
                    column,
                    row,
                ).0 <= usize::MAX && canvas_cell(v, column, row).1 <= usize::MAX,
                None => true,
            },
        ensures
            handled == old(self).diagrams.viewer is Some,
            final(self).mouse_position == (column, row),
            match old(self).diagrams.viewer {
                Some(v) => final(self).diagrams.viewer == Some(viewer_after_mouse(v, m, column, row)),
                None => final(self).diagrams.viewer is None,
            },
            same_outside_viewer(*final(self), App { mouse_position: (column, row), ..*old(self) }),
    {
        self.mouse_position = (column, row);
        let (open, idle) = match &self.diagrams.viewer {
            Some(v) => (true, !v.help && v.search.is_none()),
            None => (false, false),
        };
        if !open {
            return false;
        }
        if idle {
            match m {
                MouseAction::ScrollUp => self.pan_diagram(0, -3),
                MouseAction::ScrollDown => self.pan_diagram(0, 3),
                MouseAction::ScrollLeft => self.pan_diagram(-3, 0),
                MouseAction::ScrollRight => self.pan_diagram(3, 0),
                MouseAction::LeftDown => self.select_diagram_at(column, row),
                _ => {},
            }
        }
        true
    }
}

} // verus!
