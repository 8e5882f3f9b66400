use leaf_markdown::code_keys::CodeSelectCommand;
use leaf_markdown::diagram_keys::{DiagramCommand, KeyCode, MouseAction};
use leaf_markdown::diagrams::{App, Rect};
use leaf_markdown::keys::{key_command, AppCommand, KeyMode, KeyResponse, PickerKind};
use leaf_markdown::pointer_events::{MouseCommand, MouseOutcome, PathKind, PointerFacts};

fn mode() -> KeyMode {
    KeyMode {
        diagram_open: false,
        diagram_help: false,
        diagram_search: false,
        help_open: false,
        history_picker_loading: false,
        picker_loading: false,
        picker_load_failed: false,
        history_picker_open: false,
        history_query_empty: true,
        file_picker: PickerKind::Closed,
        file_query_empty: true,
        theme_picker_open: false,
        editor_picker_open: false,
        path_popup_open: false,
        goto_line_mode: false,
        search_mode: false,
        code_select_mode: false,
        has_active_goto_line: false,
        has_active_search: false,
        can_scroll_toc: false,
        has_content: true,
        any_picker_active: false,
        has_file: true,
        watch_enabled: false,
    }
}

fn cmd(m: &KeyMode, key: KeyCode, ctrl: bool) -> AppCommand {
    key_command(m, key, ctrl).command
}

#[test]
fn document_keys_scroll_jump_and_quit() {
    let m = mode();
    assert_eq!(
        key_command(&m, KeyCode::Char('j'), false),
        KeyResponse { command: AppCommand::ScrollDown(1), exit_code_select: false, redraw: true }
    );
    assert_eq!(cmd(&m, KeyCode::PageUp, false), AppCommand::ScrollUp(20));
    assert_eq!(cmd(&m, KeyCode::Char('G'), false), AppCommand::ScrollBottom);
    assert_eq!(cmd(&m, KeyCode::End, false), AppCommand::ScrollBottom);
    assert_eq!(cmd(&m, KeyCode::Char('g'), true), AppCommand::BeginGotoLine);
    assert_eq!(cmd(&m, KeyCode::Char('q'), false), AppCommand::Quit);
    assert_eq!(cmd(&m, KeyCode::Char('q'), true), AppCommand::OpenFuzzyPicker);
    assert_eq!(cmd(&m, KeyCode::Char('/'), false), AppCommand::BeginSearch);
    assert_eq!(cmd(&m, KeyCode::Char('v'), false), AppCommand::OpenDiagram);
    assert_eq!(cmd(&m, KeyCode::Char('m'), false), AppCommand::ToggleMouseCapture);
    assert_eq!(cmd(&m, KeyCode::Char('r'), false), AppCommand::FlashWatchNotActive);
    assert_eq!(cmd(&m, KeyCode::Char('7'), false), AppCommand::CycleNumkey('7'));
    assert!(!key_command(&m, KeyCode::Char('0'), false).redraw);
    assert_eq!(key_command(&m, KeyCode::Char('x'), false).command, AppCommand::Nothing);
    assert!(!key_command(&m, KeyCode::Char('x'), false).redraw);
    assert_eq!(cmd(&m, KeyCode::Char('J'), false), AppCommand::Nothing);
    let toc = KeyMode { can_scroll_toc: true, ..m };
    assert_eq!(cmd(&toc, KeyCode::Char('J'), false), AppCommand::TocNextTop);
}

#[test]
fn prompts_pickers_and_modes_take_their_keys() {
    let search = KeyMode { search_mode: true, ..mode() };
    assert_eq!(cmd(&search, KeyCode::Char('m'), false), AppCommand::PushSearchDraft('m'));
    assert_eq!(cmd(&search, KeyCode::Char('c'), true), AppCommand::CancelSearch);
    let fuzzy = KeyMode { file_picker: PickerKind::Fuzzy, file_query_empty: false, ..mode() };
    assert_eq!(cmd(&fuzzy, KeyCode::Char('j'), false), AppCommand::PushFileQuery('j'));
    assert_eq!(cmd(&fuzzy, KeyCode::Char('j'), true), AppCommand::FileDown);
    assert_eq!(cmd(&fuzzy, KeyCode::Esc, false), AppCommand::ClearFileQuery);
    let browser = KeyMode { file_picker: PickerKind::Browser, has_content: false, ..mode() };
    assert_eq!(cmd(&browser, KeyCode::Char('q'), false), AppCommand::Quit);
    assert_eq!(cmd(&browser, KeyCode::Backspace, false), AppCommand::OpenPickerParent);
    let theme = KeyMode { theme_picker_open: true, ..mode() };
    assert_eq!(cmd(&theme, KeyCode::Char('3'), false), AppCommand::SetThemeIndex('3'));
    let help = KeyMode { help_open: true, ..mode() };
    assert_eq!(cmd(&help, KeyCode::Char('?'), false), AppCommand::CloseHelp);
    assert!(!key_command(&help, KeyCode::Char('j'), false).redraw);
    let select = KeyMode { code_select_mode: true, ..mode() };
    assert_eq!(cmd(&select, KeyCode::Char('y'), false), AppCommand::CodeSelect(CodeSelectCommand::Next));
    assert_eq!(
        key_command(&select, KeyCode::Char('j'), false),
        KeyResponse { command: AppCommand::ScrollDown(1), exit_code_select: true, redraw: true }
    );
    let viewer = KeyMode { diagram_open: true, ..mode() };
    assert_eq!(cmd(&viewer, KeyCode::Char('q'), false), AppCommand::Diagram(DiagramCommand::Close));
}

#[test]
fn scrolling_commands_stay_within_the_document() {
    let mut app = App::new(50_000);
    app.max_scroll = 3;
    assert!(app.apply_command(AppCommand::ScrollDown(5)));
    assert_eq!(app.scroll, 3);
    assert!(app.apply_command(AppCommand::ScrollUp(1)));
    assert_eq!(app.scroll, 2);
    assert!(app.apply_command(AppCommand::ScrollTop));
    assert_eq!(app.scroll, 0);
    assert!(!app.apply_command(AppCommand::ToggleToc));
    assert_eq!(app.scroll, 0);
}

fn facts() -> PointerFacts {
    PointerFacts {
        path_popup_open: false,
        path_relative_area: None,
        path_absolute_area: None,
        path_hover: None,
        other_popup_open: false,
        in_toc_area: false,
        toc_index: None,
        hovered_toc: None,
        link_internal: None,
        hover_link: None,
        code_block: None,
        scrollbar_width: 1,
        scroll_step: 3,
        double_click_ms: 400,
    }
}

#[test]
fn double_click_copies_the_code_block_under_the_pointer() {
    let mut app = App::new(50_000);
    app.content_area = Rect { x: 0, y: 0, width: 80, height: 30 };
    let f = PointerFacts { code_block: Some(2), ..facts() };
    let first = app.mouse_step(MouseAction::LeftDown, 5, 5, false, false, 100, &f);
    assert_eq!(first, MouseOutcome { command: MouseCommand::Nothing, changed: false });
    assert_eq!(app.last_click, Some((5, 5, 100)));
    let second = app.mouse_step(MouseAction::LeftDown, 5, 5, false, false, 300, &f);
    assert_eq!(second, MouseOutcome { command: MouseCommand::CopyCodeBlock(2), changed: true });
    assert_eq!(app.code_select, Some(2));
    assert_eq!(app.last_click, None);
    // Too slow for a double click.
    app.mouse_step(MouseAction::LeftDown, 5, 5, false, false, 1000, &f);
    let late = app.mouse_step(MouseAction::LeftDown, 5, 5, false, false, 1500, &f);
    assert_eq!(late.command, MouseCommand::Nothing);
    assert_eq!(app.mouse_position, (5, 5));
}

#[test]
fn links_open_with_ctrl_and_copy_with_alt_and_hover_is_tracked() {
    let mut app = App::new(50_000);
    app.content_area = Rect { x: 0, y: 0, width: 80, height: 30 };
    let f = PointerFacts { link_internal: Some(false), hover_link: Some(4), ..facts() };
    assert_eq!(app.mouse_step(MouseAction::LeftDown, 9, 3, true, false, 0, &f).command, MouseCommand::OpenLink(false));
    assert_eq!(app.mouse_step(MouseAction::LeftDown, 9, 4, false, true, 0, &f).command, MouseCommand::CopyLink(false));
    let moved = app.mouse_step(MouseAction::Moved, 10, 4, false, false, 0, &f);
    assert!(moved.changed);
    assert_eq!(app.hovered_link, Some(4));
    // The scrollbar is the last column.
    app.max_scroll = 100;
    let grab = app.mouse_step(MouseAction::LeftDown, 79, 29, false, false, 0, &facts());
    assert!(grab.changed);
    assert!(app.scrollbar_dragging);
    assert_eq!(app.scroll, 100);
    app.mouse_step(MouseAction::Up, 79, 29, false, false, 0, &facts());
    assert!(!app.scrollbar_dragging);
}

#[test]
fn path_popup_double_click_copies_the_path() {
    let mut app = App::new(50_000);
    let f = PointerFacts {
        path_popup_open: true,
        path_relative_area: Some(Rect { x: 0, y: 0, width: 10, height: 1 }),
        path_absolute_area: Some(Rect { x: 0, y: 1, width: 10, height: 1 }),
        ..facts()
    };
    app.mouse_step(MouseAction::LeftDown, 2, 1, false, false, 10, &f);
    let r = app.mouse_step(MouseAction::LeftDown, 2, 1, false, false, 20, &f);
    assert_eq!(r.command, MouseCommand::CopyPathAbsolute);
    let h = app.mouse_step(MouseAction::Moved, 2, 0, false, false, 30, &f);
    assert_eq!(h, MouseOutcome { command: MouseCommand::SetPathHover(Some(PathKind::Relative)), changed: true });
}
