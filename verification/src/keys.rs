//! The document's keyboard: which command a key asks for in each mode of
//! the application (the diagram viewer, help, the pickers and popups, the
//! search and go-to prompts, code selection, and the document itself).
//! The event loop performs the command; scrolling and the viewer's
//! commands are performed here.
use vstd::prelude::*;
use crate::code_keys::{code_entry_command, code_entry_spec, code_select_command, code_select_spec, CodeEntryCommand, CodeSelectCommand};
use crate::diagram_keys::{command_applied, diagram_key_command, diagram_key_spec, DiagramCommand, KeyCode};
use crate::diagram_open::diagram_opened;
use crate::diagrams::{same_outside_viewer, App};

verus! {

/// Which file picker is open.
#[derive(Clone, Copy, Debug, PartialEq, Eq, Structural)]
pub enum PickerKind {
    Closed,
    /// The directory browser.
    Browser,
    /// The fuzzy file finder, which takes typed text.
    Fuzzy,
}

/// What the key dispatcher reads of the application's state.
#[derive(Clone, Copy, Debug, PartialEq, Eq, Structural)]
pub struct KeyMode {
    pub diagram_open: bool,
    pub diagram_help: bool,
    pub diagram_search: bool,
    pub help_open: bool,
    pub history_picker_loading: bool,
    pub picker_loading: bool,
    pub picker_load_failed: bool,
    pub history_picker_open: bool,
    pub history_query_empty: bool,
    pub file_picker: PickerKind,
    pub file_query_empty: bool,
    pub theme_picker_open: bool,
    pub editor_picker_open: bool,
    pub path_popup_open: bool,
    pub goto_line_mode: bool,
    pub search_mode: bool,
    pub code_select_mode: bool,
    pub has_active_goto_line: bool,
    pub has_active_search: bool,
    pub can_scroll_toc: bool,
    /// Whether a document is loaded (closing a picker returns to it).
    pub has_content: bool,
    pub any_picker_active: bool,
    /// Whether the document came from a file.
    pub has_file: bool,
    pub watch_enabled: bool,
}

/// What a key asks the application to do.
#[derive(Clone, Copy, Debug, PartialEq, Eq, Structural)]
pub enum AppCommand {
    Nothing,
    Quit,
    Diagram(DiagramCommand),
    ToggleMouseCapture,
    CloseHelp,
    OpenHelp,
    CloseHistoryPicker,
    CancelPickerLoading,
    ActivateHistorySelection,
    ClearHistoryQuery,
    HistoryDown,
    HistoryUp,
    PopHistoryQuery,
    PushHistoryQuery(char),
    /// Opens the selected entry; the picker reports whether anything changed.
    ActivateFileSelection,
    FileDown,
    FileUp,
    ClearFileQuery,
    CloseFilePicker,
    /// Goes to the parent directory; the picker reports whether it could.
    OpenPickerParent,
    PopFileQuery,
    PushFileQuery(char),
    RestoreThemePreview,
    CloseThemePicker,
    ThemeDown,
    ThemeUp,
    /// Selects the theme of a digit key `1`..`9`; the picker reports whether
    /// that theme exists.
    SetThemeIndex(char),
    CancelEditorPicker,
    CloseEditorPicker,
    EditorDown,
    EditorUp,
    ClosePathPopup,
    PopupCopyRelative,
    PopupCopyAbsolute,
    ClearGotoLine,
    ConfirmGotoLine,
    PopGotoDraft,
    PushGotoDraft(char),
    CancelSearch,
    ConfirmSearch,
    PopSearchDraft,
    PushSearchDraft(char),
    OpenDiagram,
    CodeSelect(CodeSelectCommand),
    CodeEntry(CodeEntryCommand),
    ClearSearch,
    NextMatch,
    PrevMatch,
    OpenFuzzyPicker,
    OpenFilePicker,
    OpenHistoryPicker,
    OpenPathPopup,
    OpenThemePicker,
    OpenEditorPicker,
    OpenInEditor,
    ScrollDown(usize),
    ScrollUp(usize),
    ScrollTop,
    ScrollBottom,
    BeginGotoLine,
    BeginSearch,
    TocNextTop,
    TocPrevTop,
    TocHalfPageDown,
    TocHalfPageUp,
    ToggleToc,
    ToggleWatch,
    /// Reload refused: the document did not come from a file.
    FlashNoFile,
    /// Reload refused: watching is off.
    FlashWatchNotActive,
    Reload,
    CopyPathRelative,
    CopyPathAbsolute,
    ToggleLineNumbers,
    ToggleReverseMode,
    /// Jumps by the digit key `1`..`9`.
    CycleNumkey(char),
}

/// The dispatcher's answer: the command, whether code selection is left
/// first, and whether the screen is drawn again (commands that report
/// their own change decide that themselves).
#[derive(Clone, Copy, Debug, PartialEq, Eq, Structural)]
pub struct KeyResponse {
    pub command: AppCommand,
    pub exit_code_select: bool,
    pub redraw: bool,
}

pub open spec fn respond(command: AppCommand, redraw: bool) -> KeyResponse {
    KeyResponse { command, exit_code_select: false, redraw }
}

fn respond_with(command: AppCommand, redraw: bool) -> (r: KeyResponse)
    ensures
        r == respond(command, redraw),
{
    KeyResponse { command, exit_code_select: false, redraw }
}

/// The command of a key on the document itself.
pub open spec fn document_key_spec(mode: KeyMode, key: KeyCode, ctrl: bool) -> KeyResponse {

    match key {
        KeyCode::Esc => if mode.has_active_goto_line {
            respond(AppCommand::ClearGotoLine, true)
        } else if mode.has_active_search {
            respond(AppCommand::ClearSearch, true)
        } else {
            respond(AppCommand::Nothing, false)
        },
        KeyCode::Enter => if mode.has_active_search { respond(AppCommand::NextMatch, true) } else { respond(AppCommand::Nothing, false) },
        KeyCode::Down => respond(AppCommand::ScrollDown(1), true),
        KeyCode::Up => respond(AppCommand::ScrollUp(1), true),
        KeyCode::PageDown => respond(AppCommand::ScrollDown(20), true),
        KeyCode::PageUp => respond(AppCommand::ScrollUp(20), true),
        KeyCode::Home => respond(AppCommand::ScrollTop, true),
        KeyCode::End => respond(AppCommand::ScrollBottom, true),
        KeyCode::Char(c) => if ctrl && c == 'q' {
            respond(AppCommand::OpenFuzzyPicker, true)
        } else if c == 'q' || c == 'Q' {
            respond(AppCommand::Quit, true)
        } else if ctrl && c == 'c' {
            respond(if mode.has_active_search {
                AppCommand::ClearSearch
            } else if mode.has_active_goto_line {
                AppCommand::ClearGotoLine
            } else {
                AppCommand::Quit
            }, true)
        } else if c == 'j' {
            respond(AppCommand::ScrollDown(1), true)
        } else if c == 'k' {
            respond(AppCommand::ScrollUp(1), true)
        } else if c == 'd' {
            respond(AppCommand::ScrollDown(20), true)
        } else if c == 'u' {
            respond(AppCommand::ScrollUp(20), true)
        } else if ctrl && (c == 'g' || c == 'l') {
            respond(AppCommand::BeginGotoLine, true)
        } else if c == 'g' {
            respond(AppCommand::ScrollTop, true)
        } else if c == 'G' {
            respond(AppCommand::ScrollBottom, true)
        } else if c == 'J' && mode.can_scroll_toc {
            respond(AppCommand::TocNextTop, true)
        } else if c == 'K' && mode.can_scroll_toc {
            respond(AppCommand::TocPrevTop, true)
        } else if c == 'D' && mode.can_scroll_toc {
            respond(AppCommand::TocHalfPageDown, true)
        } else if c == 'U' && mode.can_scroll_toc {
            respond(AppCommand::TocHalfPageUp, true)
        } else if c == 't' {
            respond(AppCommand::ToggleToc, true)
        } else if c == 'T' {
            respond(AppCommand::OpenThemePicker, true)
        } else if c == 'E' {
            respond(AppCommand::OpenEditorPicker, true)
        } else if c == '?' {
            respond(AppCommand::OpenHelp, true)
        } else if c == 'w' {
            respond(AppCommand::ToggleWatch, true)
        } else if ctrl && c == 'h' {
            respond(if mode.any_picker_active { AppCommand::Nothing } else { AppCommand::OpenHistoryPicker }, true)
        } else if c == 'r' {
            respond(if !mode.has_file {
                AppCommand::FlashNoFile
            } else if !mode.watch_enabled {
                AppCommand::FlashWatchNotActive
            } else {
                AppCommand::Reload
            }, true)
        } else if (ctrl && c == 'f') || c == '/' {
            respond(AppCommand::BeginSearch, true)
        } else if c == ':' {
            respond(AppCommand::BeginGotoLine, true)
        } else if c == 'n' {
            respond(AppCommand::NextMatch, true)
        } else if c == 'N' {
            respond(AppCommand::PrevMatch, true)
        } else if c == 'R' {
            respond(AppCommand::CopyPathRelative, true)
        } else if c == 'A' {
            respond(AppCommand::CopyPathAbsolute, true)
        } else if c == 'l' || c == 'L' {
            respond(AppCommand::ToggleLineNumbers, true)
        } else if ctrl && c == 'e' {
            respond(AppCommand::OpenInEditor, true)
        } else if ctrl && c == 'p' {
            respond(AppCommand::OpenFuzzyPicker, true)
        } else if c == 'P' {
            respond(AppCommand::OpenFilePicker, true)
        } else if c == 'p' {
            respond(AppCommand::OpenPathPopup, true)
        } else if c == '0' {
            respond(AppCommand::ToggleReverseMode, false)
        } else if '1' <= c && c <= '9' {
            respond(AppCommand::CycleNumkey(c), true)
        } else {
            respond(AppCommand::Nothing, false)
        },
        _ => respond(AppCommand::Nothing, false),
    }
}

/// The command of a key in the application's current mode: the open
/// viewer takes every key; then `m` toggles mouse capture outside text
/// prompts; then help, the pickers, the path popup and the prompts each
/// take their keys; otherwise `v` opens a diagram, code selection takes
/// its keys, and the rest act on the document (leaving code selection).
pub open spec fn key_command_spec(mode: KeyMode, key: KeyCode, ctrl: bool) -> KeyResponse {

    if mode.diagram_open {
        KeyResponse { command: AppCommand::Diagram(diagram_key_spec(mode.diagram_help, mode.diagram_search, key, ctrl)), exit_code_select: false, redraw: true }
    } else if (key == KeyCode::Char('m') || key == KeyCode::Char('M')) && !ctrl && !(mode.search_mode || mode.goto_line_mode || mode.file_picker == PickerKind::Fuzzy) {
        KeyResponse { command: AppCommand::ToggleMouseCapture, exit_code_select: false, redraw: true }
    } else if mode.help_open {
        if key == KeyCode::Esc || key == KeyCode::Char('?') || (key == KeyCode::Char('c') && ctrl) {
            respond(AppCommand::CloseHelp, true)
        } else {
            respond(AppCommand::Nothing, false)
        }
    } else if mode.history_picker_loading {
        if key == KeyCode::Esc || ((key == KeyCode::Char('q') || key == KeyCode::Char('c')) && ctrl) {
            respond(if mode.has_content { AppCommand::CloseHistoryPicker } else { AppCommand::Quit }, true)
        } else {
            respond(AppCommand::Nothing, false)
        }
    } else if mode.picker_loading {
        if (key == KeyCode::Char('q') || key == KeyCode::Char('c')) && ctrl {
            respond(if mode.has_content { AppCommand::CancelPickerLoading } else { AppCommand::Quit }, true)
        } else if (key == KeyCode::Char('p') && ctrl) || key == KeyCode::Char('P') {
            respond(if mode.has_content { AppCommand::CancelPickerLoading } else { AppCommand::Nothing }, mode.has_content)
        } else {
            respond(AppCommand::Nothing, false)
        }
    } else if mode.picker_load_failed {
        if ctrl && (key == KeyCode::Esc || key == KeyCode::Enter || key == KeyCode::Char('q') || key == KeyCode::Char('c')) {
            respond(if mode.has_content { AppCommand::CancelPickerLoading } else { AppCommand::Quit }, true)
        } else {
            respond(AppCommand::Nothing, false)
        }
    } else if mode.history_picker_open {
        match key {
            KeyCode::Enter => respond(AppCommand::ActivateHistorySelection, true),
            KeyCode::Esc => respond(if !mode.history_query_empty {
                AppCommand::ClearHistoryQuery
            } else if mode.has_content {
                AppCommand::CloseHistoryPicker
            } else {
                AppCommand::Quit
            }, true),
            KeyCode::Down => respond(AppCommand::HistoryDown, true),
            KeyCode::Up => respond(AppCommand::HistoryUp, true),
            KeyCode::Backspace => respond(AppCommand::PopHistoryQuery, true),
            KeyCode::Char(c) => if ctrl && (c == 'c' || c == 'h') {
                respond(if mode.has_content { AppCommand::CloseHistoryPicker } else { AppCommand::Quit }, true)
            } else if ctrl && c == 'j' {
                respond(AppCommand::HistoryDown, true)
            } else if ctrl && c == 'k' {
                respond(AppCommand::HistoryUp, true)
            } else if !ctrl {
                respond(AppCommand::PushHistoryQuery(c), true)
            } else {
                respond(AppCommand::Nothing, false)
            },
            _ => respond(AppCommand::Nothing, false),
        }
    } else if mode.file_picker != PickerKind::Closed {
        let browser = mode.file_picker == PickerKind::Browser;
        let fuzzy = mode.file_picker == PickerKind::Fuzzy;
        let close_or_quit = if mode.has_content { AppCommand::CloseFilePicker } else { AppCommand::Quit };
        match key {
            KeyCode::Enter => respond(AppCommand::ActivateFileSelection, true),
            KeyCode::Down => respond(AppCommand::FileDown, true),
            KeyCode::Up => respond(AppCommand::FileUp, true),
            KeyCode::Esc => respond(if fuzzy && !mode.file_query_empty {
                AppCommand::ClearFileQuery
            } else {
                close_or_quit
            }, true),
            KeyCode::Left => if browser { respond(AppCommand::OpenPickerParent, true) } else { respond(AppCommand::Nothing, false) },
            KeyCode::Backspace => respond(if browser { AppCommand::OpenPickerParent } else { AppCommand::PopFileQuery }, true),
            KeyCode::Char(c) => if c == '?' {
                respond(AppCommand::OpenHelp, true)
            } else if c == 'q' && browser {
                respond(close_or_quit, true)
            } else if browser && (c == 'j' || c == 'k') {
                respond(if c == 'j' { AppCommand::FileDown } else { AppCommand::FileUp }, true)
            } else if ctrl && fuzzy && (c == 'j' || c == 'k') {
                respond(if c == 'j' { AppCommand::FileDown } else { AppCommand::FileUp }, true)
            } else if c == 'h' && browser {
                respond(AppCommand::OpenPickerParent, true)
            } else if c == 'c' && ctrl {
                respond(close_or_quit, true)
            } else if (ctrl && fuzzy && (c == 'p' || c == 'q')) || (c == 'P' && browser) {
                respond(if mode.has_content { AppCommand::CloseFilePicker } else { AppCommand::Nothing }, mode.has_content)
            } else if fuzzy && !ctrl {
                respond(AppCommand::PushFileQuery(c), true)
            } else {
                respond(AppCommand::Nothing, false)
            },
            _ => respond(AppCommand::Nothing, false),
        }
    } else if mode.theme_picker_open {
        match key {
            KeyCode::Esc => respond(AppCommand::RestoreThemePreview, true),
            KeyCode::Enter => respond(AppCommand::CloseThemePicker, true),
            KeyCode::Down => respond(AppCommand::ThemeDown, true),
            KeyCode::Up => respond(AppCommand::ThemeUp, true),
            KeyCode::Char(c) => if c == 'T' || (c == 'c' && ctrl) {
                respond(AppCommand::RestoreThemePreview, true)
            } else if c == 'j' {
                respond(AppCommand::ThemeDown, true)
            } else if c == 'k' {
                respond(AppCommand::ThemeUp, true)
            } else if '1' <= c && c <= '9' {
                respond(AppCommand::SetThemeIndex(c), true)
            } else {
                respond(AppCommand::Nothing, false)
            },
            _ => respond(AppCommand::Nothing, false),
        }
    } else if mode.editor_picker_open {
        match key {
            KeyCode::Esc => respond(AppCommand::CancelEditorPicker, true),
            KeyCode::Enter => respond(AppCommand::CloseEditorPicker, true),
            KeyCode::Down => respond(AppCommand::EditorDown, true),
            KeyCode::Up => respond(AppCommand::EditorUp, true),
            KeyCode::Char(c) => if c == 'E' || (c == 'c' && ctrl) {
                respond(AppCommand::CancelEditorPicker, true)
            } else if c == 'j' {
                respond(AppCommand::EditorDown, true)
            } else if c == 'k' {
                respond(AppCommand::EditorUp, true)
            } else {
                respond(AppCommand::Nothing, false)
            },
            _ => respond(AppCommand::Nothing, false),
        }
    } else if mode.path_popup_open {
        match key {
            KeyCode::Enter | KeyCode::Esc => respond(AppCommand::ClosePathPopup, true),
            KeyCode::Char(c) => if c == 'p' || (c == 'c' && ctrl) {
                respond(AppCommand::ClosePathPopup, true)
            } else if c == 'r' || c == 'R' {
                respond(AppCommand::PopupCopyRelative, true)
            } else if c == 'a' || c == 'A' {
                respond(AppCommand::PopupCopyAbsolute, true)
            } else {
                respond(AppCommand::Nothing, false)
            },
            _ => respond(AppCommand::Nothing, false),
        }
    } else if mode.goto_line_mode {
        match key {
            KeyCode::Esc => respond(AppCommand::ClearGotoLine, true),
            KeyCode::Enter => respond(AppCommand::ConfirmGotoLine, true),
            KeyCode::Backspace => respond(AppCommand::PopGotoDraft, true),
            KeyCode::Char(c) => if c == 'c' && ctrl {
                respond(AppCommand::ClearGotoLine, true)
            } else {
                respond(AppCommand::PushGotoDraft(c), true)
            },
            _ => respond(AppCommand::Nothing, false),
        }
    } else if mode.search_mode {
        match key {
            KeyCode::Esc => respond(AppCommand::CancelSearch, true),
            KeyCode::Enter => respond(AppCommand::ConfirmSearch, true),
            KeyCode::Backspace => respond(AppCommand::PopSearchDraft, true),
            KeyCode::Char(c) => if c == 'c' && ctrl {
                respond(AppCommand::CancelSearch, true)
            } else {
                respond(AppCommand::PushSearchDraft(c), true)
            },
            _ => respond(AppCommand::Nothing, false),
        }
    } else if key == KeyCode::Char('v') && !ctrl {
        respond(AppCommand::OpenDiagram, true)
    } else if mode.code_select_mode && code_select_spec(key, ctrl) is Some {
        respond(AppCommand::CodeSelect(code_select_spec(key, ctrl)->0), true)
    } else if !mode.code_select_mode && code_entry_spec(key, ctrl) is Some {
        respond(AppCommand::CodeEntry(code_entry_spec(key, ctrl)->0), true)
    } else {
        let r = document_key_spec(mode, key, ctrl);
        KeyResponse { command: r.command, exit_code_select: mode.code_select_mode, redraw: r.redraw || mode.code_select_mode }
    }
}

fn document_key_command(mode: &KeyMode, key: KeyCode, ctrl: bool) -> (r: KeyResponse)
    ensures
        r == document_key_spec(*mode, key, ctrl),
{

    match key {
        KeyCode::Esc => if mode.has_active_goto_line {
            respond_with(AppCommand::ClearGotoLine, true)
        } else if mode.has_active_search {
            respond_with(AppCommand::ClearSearch, true)
        } else {
            respond_with(AppCommand::Nothing, false)
        },
        KeyCode::Enter => if mode.has_active_search { respond_with(AppCommand::NextMatch, true) } else { respond_with(AppCommand::Nothing, false) },
        KeyCode::Down => respond_with(AppCommand::ScrollDown(1), true),
        KeyCode::Up => respond_with(AppCommand::ScrollUp(1), true),
        KeyCode::PageDown => respond_with(AppCommand::ScrollDown(20), true),
        KeyCode::PageUp => respond_with(AppCommand::ScrollUp(20), true),
        KeyCode::Home => respond_with(AppCommand::ScrollTop, true),
        KeyCode::End => respond_with(AppCommand::ScrollBottom, true),
        KeyCode::Char(c) => if ctrl && c == 'q' {
            respond_with(AppCommand::OpenFuzzyPicker, true)
        } else if c == 'q' || c == 'Q' {
            respond_with(AppCommand::Quit, true)
        } else if ctrl && c == 'c' {
            respond_with(if mode.has_active_search {
                AppCommand::ClearSearch
            } else if mode.has_active_goto_line {
                AppCommand::ClearGotoLine
            } else {
                AppCommand::Quit
            }, true)
        } else if c == 'j' {
            respond_with(AppCommand::ScrollDown(1), true)
        } else if c == 'k' {
            respond_with(AppCommand::ScrollUp(1), true)
        } else if c == 'd' {
            respond_with(AppCommand::ScrollDown(20), true)
        } else if c == 'u' {
            respond_with(AppCommand::ScrollUp(20), true)
        } else if ctrl && (c == 'g' || c == 'l') {
            respond_with(AppCommand::BeginGotoLine, true)
        } else if c == 'g' {
            respond_with(AppCommand::ScrollTop, true)
        } else if c == 'G' {
            respond_with(AppCommand::ScrollBottom, true)
        } else if c == 'J' && mode.can_scroll_toc {
            respond_with(AppCommand::TocNextTop, true)
        } else if c == 'K' && mode.can_scroll_toc {
            respond_with(AppCommand::TocPrevTop, true)
        } else if c == 'D' && mode.can_scroll_toc {
            respond_with(AppCommand::TocHalfPageDown, true)
        } else if c == 'U' && mode.can_scroll_toc {
            respond_with(AppCommand::TocHalfPageUp, true)
        } else if c == 't' {
            respond_with(AppCommand::ToggleToc, true)
        } else if c == 'T' {
            respond_with(AppCommand::OpenThemePicker, true)
        } else if c == 'E' {
            respond_with(AppCommand::OpenEditorPicker, true)
        } else if c == '?' {
            respond_with(AppCommand::OpenHelp, true)
        } else if c == 'w' {
            respond_with(AppCommand::ToggleWatch, true)
        } else if ctrl && c == 'h' {
            respond_with(if mode.any_picker_active { AppCommand::Nothing } else { AppCommand::OpenHistoryPicker }, true)
        } else if c == 'r' {
            respond_with(if !mode.has_file {
                AppCommand::FlashNoFile
            } else if !mode.watch_enabled {
                AppCommand::FlashWatchNotActive
            } else {
                AppCommand::Reload
            }, true)
        } else if (ctrl && c == 'f') || c == '/' {
            respond_with(AppCommand::BeginSearch, true)
        } else if c == ':' {
            respond_with(AppCommand::BeginGotoLine, true)
        } else if c == 'n' {
            respond_with(AppCommand::NextMatch, true)
        } else if c == 'N' {
            respond_with(AppCommand::PrevMatch, true)
        } else if c == 'R' {
            respond_with(AppCommand::CopyPathRelative, true)
        } else if c == 'A' {
            respond_with(AppCommand::CopyPathAbsolute, true)
        } else if c == 'l' || c == 'L' {
            respond_with(AppCommand::ToggleLineNumbers, true)
        } else if ctrl && c == 'e' {
            respond_with(AppCommand::OpenInEditor, true)
        } else if ctrl && c == 'p' {
            respond_with(AppCommand::OpenFuzzyPicker, true)
        } else if c == 'P' {
            respond_with(AppCommand::OpenFilePicker, true)
        } else if c == 'p' {
            respond_with(AppCommand::OpenPathPopup, true)
        } else if c == '0' {
            respond_with(AppCommand::ToggleReverseMode, false)
        } else if '1' <= c && c <= '9' {
            respond_with(AppCommand::CycleNumkey(c), true)
        } else {
            respond_with(AppCommand::Nothing, false)
        },
        _ => respond_with(AppCommand::Nothing, false),
    }
}

/// The command of a key in the application's current mode.
#[verifier::rlimit(40)]
pub fn key_command(mode: &KeyMode, key: KeyCode, ctrl: bool) -> (r: KeyResponse)
    ensures
        r == key_command_spec(*mode, key, ctrl),
{

    if mode.diagram_open {
        KeyResponse { command: AppCommand::Diagram(diagram_key_command(mode.diagram_help, mode.diagram_search, key, ctrl)), exit_code_select: false, redraw: true }
    } else if (key == KeyCode::Char('m') || key == KeyCode::Char('M')) && !ctrl && !(mode.search_mode || mode.goto_line_mode || mode.file_picker == PickerKind::Fuzzy) {
        KeyResponse { command: AppCommand::ToggleMouseCapture, exit_code_select: false, redraw: true }
    } else if mode.help_open {
        if key == KeyCode::Esc || key == KeyCode::Char('?') || (key == KeyCode::Char('c') && ctrl) {
            respond_with(AppCommand::CloseHelp, true)
        } else {
            respond_with(AppCommand::Nothing, false)
        }
    } else if mode.history_picker_loading {
        if key == KeyCode::Esc || ((key == KeyCode::Char('q') || key == KeyCode::Char('c')) && ctrl) {
            respond_with(if mode.has_content { AppCommand::CloseHistoryPicker } else { AppCommand::Quit }, true)
        } else {
            respond_with(AppCommand::Nothing, false)
        }
    } else if mode.picker_loading {
        if (key == KeyCode::Char('q') || key == KeyCode::Char('c')) && ctrl {
            respond_with(if mode.has_content { AppCommand::CancelPickerLoading } else { AppCommand::Quit }, true)
        } else if (key == KeyCode::Char('p') && ctrl) || key == KeyCode::Char('P') {
            respond_with(if mode.has_content { AppCommand::CancelPickerLoading } else { AppCommand::Nothing }, mode.has_content)
        } else {
            respond_with(AppCommand::Nothing, false)
        }
    } else if mode.picker_load_failed {
        if ctrl && (key == KeyCode::Esc || key == KeyCode::Enter || key == KeyCode::Char('q') || key == KeyCode::Char('c')) {
            respond_with(if mode.has_content { AppCommand::CancelPickerLoading } else { AppCommand::Quit }, true)
        } else {
            respond_with(AppCommand::Nothing, false)
        }
    } else if mode.history_picker_open {
        match key {
            KeyCode::Enter => respond_with(AppCommand::ActivateHistorySelection, true),
            KeyCode::Esc => respond_with(if !mode.history_query_empty {
                AppCommand::ClearHistoryQuery
            } else if mode.has_content {
                AppCommand::CloseHistoryPicker
            } else {
                AppCommand::Quit
            }, true),
            KeyCode::Down => respond_with(AppCommand::HistoryDown, true),
            KeyCode::Up => respond_with(AppCommand::HistoryUp, true),
            KeyCode::Backspace => respond_with(AppCommand::PopHistoryQuery, true),
            KeyCode::Char(c) => if ctrl && (c == 'c' || c == 'h') {
                respond_with(if mode.has_content { AppCommand::CloseHistoryPicker } else { AppCommand::Quit }, true)
            } else if ctrl && c == 'j' {
                respond_with(AppCommand::HistoryDown, true)
            } else if ctrl && c == 'k' {
                respond_with(AppCommand::HistoryUp, true)
            } else if !ctrl {
                respond_with(AppCommand::PushHistoryQuery(c), true)
            } else {
                respond_with(AppCommand::Nothing, false)
            },
            _ => respond_with(AppCommand::Nothing, false),
        }
    } else if mode.file_picker != PickerKind::Closed {
        let browser = mode.file_picker == PickerKind::Browser;
        let fuzzy = mode.file_picker == PickerKind::Fuzzy;
        let close_or_quit = if mode.has_content { AppCommand::CloseFilePicker } else { AppCommand::Quit };
        match key {
            KeyCode::Enter => respond_with(AppCommand::ActivateFileSelection, true),
            KeyCode::Down => respond_with(AppCommand::FileDown, true),
            KeyCode::Up => respond_with(AppCommand::FileUp, true),
            KeyCode::Esc => respond_with(if fuzzy && !mode.file_query_empty {
                AppCommand::ClearFileQuery
            } else {
                close_or_quit
            }, true),
            KeyCode::Left => if browser { respond_with(AppCommand::OpenPickerParent, true) } else { respond_with(AppCommand::Nothing, false) },
            KeyCode::Backspace => respond_with(if browser { AppCommand::OpenPickerParent } else { AppCommand::PopFileQuery }, true),
            KeyCode::Char(c) => if c == '?' {
                respond_with(AppCommand::OpenHelp, true)
            } else if c == 'q' && browser {
                respond_with(close_or_quit, true)
            } else if browser && (c == 'j' || c == 'k') {
                respond_with(if c == 'j' { AppCommand::FileDown } else { AppCommand::FileUp }, true)
            } else if ctrl && fuzzy && (c == 'j' || c == 'k') {
                respond_with(if c == 'j' { AppCommand::FileDown } else { AppCommand::FileUp }, true)
            } else if c == 'h' && browser {
                respond_with(AppCommand::OpenPickerParent, true)
            } else if c == 'c' && ctrl {
                respond_with(close_or_quit, true)
            } else if (ctrl && fuzzy && (c == 'p' || c == 'q')) || (c == 'P' && browser) {
                respond_with(if mode.has_content { AppCommand::CloseFilePicker } else { AppCommand::Nothing }, mode.has_content)
            } else if fuzzy && !ctrl {
                respond_with(AppCommand::PushFileQuery(c), true)
            } else {
                respond_with(AppCommand::Nothing, false)
            },
            _ => respond_with(AppCommand::Nothing, false),
        }
    } else if mode.theme_picker_open {
        match key {
            KeyCode::Esc => respond_with(AppCommand::RestoreThemePreview, true),
            KeyCode::Enter => respond_with(AppCommand::CloseThemePicker, true),
            KeyCode::Down => respond_with(AppCommand::ThemeDown, true),
            KeyCode::Up => respond_with(AppCommand::ThemeUp, true),
            KeyCode::Char(c) => if c == 'T' || (c == 'c' && ctrl) {
                respond_with(AppCommand::RestoreThemePreview, true)
            } else if c == 'j' {
                respond_with(AppCommand::ThemeDown, true)
            } else if c == 'k' {
                respond_with(AppCommand::ThemeUp, true)
            } else if '1' <= c && c <= '9' {
                respond_with(AppCommand::SetThemeIndex(c), true)
            } else {
                respond_with(AppCommand::Nothing, false)
            },
            _ => respond_with(AppCommand::Nothing, false),
        }
    } else if mode.editor_picker_open {
        match key {
            KeyCode::Esc => respond_with(AppCommand::CancelEditorPicker, true),
            KeyCode::Enter => respond_with(AppCommand::CloseEditorPicker, true),
            KeyCode::Down => respond_with(AppCommand::EditorDown, true),
            KeyCode::Up => respond_with(AppCommand::EditorUp, true),
            KeyCode::Char(c) => if c == 'E' || (c == 'c' && ctrl) {
                respond_with(AppCommand::CancelEditorPicker, true)
            } else if c == 'j' {
                respond_with(AppCommand::EditorDown, true)
            } else if c == 'k' {
                respond_with(AppCommand::EditorUp, true)
            } else {
                respond_with(AppCommand::Nothing, false)
            },
            _ => respond_with(AppCommand::Nothing, false),
        }
    } else if mode.path_popup_open {
        match key {
            KeyCode::Enter | KeyCode::Esc => respond_with(AppCommand::ClosePathPopup, true),
            KeyCode::Char(c) => if c == 'p' || (c == 'c' && ctrl) {
                respond_with(AppCommand::ClosePathPopup, true)
            } else if c == 'r' || c == 'R' {
                respond_with(AppCommand::PopupCopyRelative, true)
            } else if c == 'a' || c == 'A' {
                respond_with(AppCommand::PopupCopyAbsolute, true)
            } else {
                respond_with(AppCommand::Nothing, false)
            },
            _ => respond_with(AppCommand::Nothing, false),
        }
    } else if mode.goto_line_mode {
        match key {
            KeyCode::Esc => respond_with(AppCommand::ClearGotoLine, true),
            KeyCode::Enter => respond_with(AppCommand::ConfirmGotoLine, true),
            KeyCode::Backspace => respond_with(AppCommand::PopGotoDraft, true),
            KeyCode::Char(c) => if c == 'c' && ctrl {
                respond_with(AppCommand::ClearGotoLine, true)
            } else {
                respond_with(AppCommand::PushGotoDraft(c), true)
            },
            _ => respond_with(AppCommand::Nothing, false),
        }
    } else if mode.search_mode {
        match key {
            KeyCode::Esc => respond_with(AppCommand::CancelSearch, true),
            KeyCode::Enter => respond_with(AppCommand::ConfirmSearch, true),
            KeyCode::Backspace => respond_with(AppCommand::PopSearchDraft, true),
            KeyCode::Char(c) => if c == 'c' && ctrl {
                respond_with(AppCommand::CancelSearch, true)
            } else {
                respond_with(AppCommand::PushSearchDraft(c), true)
            },
            _ => respond_with(AppCommand::Nothing, false),
        }
    } else if key == KeyCode::Char('v') && !ctrl {
        respond_with(AppCommand::OpenDiagram, true)
    } else if let (true, Some(cmd)) = (mode.code_select_mode, code_select_command(key, ctrl)) {
        respond_with(AppCommand::CodeSelect(cmd), true)
    } else if let (false, Some(cmd)) = (mode.code_select_mode, code_entry_command(key, ctrl)) {
        respond_with(AppCommand::CodeEntry(cmd), true)
    } else {
        let r = document_key_command(mode, key, ctrl);
        KeyResponse { command: r.command, exit_code_select: mode.code_select_mode, redraw: r.redraw || mode.code_select_mode }
    }
}

/// The scroll position after scrolling down `n` lines, up to the largest.
pub open spec fn scrolled_down(a: App, n: usize) -> usize {
    if a.scroll + n < a.max_scroll { (a.scroll + n) as usize } else if a.scroll < a.max_scroll { a.max_scroll } else { a.scroll }
}

/// The scroll position after scrolling up `n` lines, down to the top.
pub open spec fn scrolled_up(a: App, n: usize) -> usize {
    if a.scroll >= n { (a.scroll - n) as usize } else { 0 }
}

/// What performing `cmd` does here. Scrolling moves the document,
/// `OpenDiagram` and the viewer's commands act on the viewer; every other
/// command is the event loop's to perform (`handled` is false) and leaves
/// the state as it was.
pub open spec fn command_effect(a: App, b: App, cmd: AppCommand, handled: bool) -> bool {
    match cmd {
        AppCommand::ScrollDown(n) => handled && b == (App { scroll: scrolled_down(a, n), ..a }),
        AppCommand::ScrollUp(n) => handled && b == (App { scroll: scrolled_up(a, n), ..a }),
        AppCommand::ScrollTop => handled && b == (App { scroll: 0, ..a }),
        AppCommand::ScrollBottom => handled && b == (App { scroll: a.max_scroll, ..a }),
        AppCommand::OpenDiagram => handled && diagram_opened(a, b),
        AppCommand::Diagram(d) => handled && command_applied(a, b, d),
        _ => !handled && b == a,
    }
}

impl App {
    /// Performs the part of a command that belongs to the library; returns
    /// whether it did.
    pub fn apply_command(&mut self, cmd: AppCommand) -> (handled: bool)
        ensures
            command_effect(*old(self), *final(self), cmd, handled),
    {
        match cmd {
            AppCommand::ScrollDown(n) => {
                if self.scroll < self.max_scroll {
                    self.scroll = if n < self.max_scroll - self.scroll { self.scroll + n } else { self.max_scroll };
                }
                true
            },
            AppCommand::ScrollUp(n) => {
                self.scroll = if self.scroll >= n { self.scroll - n } else { 0 };
                true
            },
            AppCommand::ScrollTop => {
                self.scroll = 0;
                true
            },
            AppCommand::ScrollBottom => {
                self.scroll = self.max_scroll;
                true
            },
            AppCommand::OpenDiagram => {
                self.open_diagram();
                true
            },
            AppCommand::Diagram(d) => {
                self.apply_diagram_command(d);
                true
            },
            _ => false,
        }
    }
}

} // verus!
