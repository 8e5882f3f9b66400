use leaf_markdown::diagram_model::{DiagramCompletion, DiagramJob, MermaidOptions, ViewOptions};
use leaf_markdown::diagrams::{App, DiagramBlockInfo, Rect};
use leaf_markdown::document::{
    alert_icon_label, blockquote_prefix, byte_to_line, compute_line_starts, hash_str, heading_underline,
    is_blockquote_blank_text, record_code_block, AlertKind,
    rule_width, BlockLayout, CodeBlockInfo, LineMapState,
};
use leaf_markdown::footnotes::{note_prefix, notes_heading, to_superscript, FootnoteNumbers};
use leaf_markdown::code_keys::{code_entry_command, code_select_command, CodeEntryCommand, CodeSelectCommand};
use leaf_markdown::diagram_keys::KeyCode;
use leaf_markdown::line_maps::{
    blockquote_marker_spans, end_blockquote, is_border_span, is_frame_span, line_plain_text,
    pop_trailing_blockquote_gap, trim_paragraph_gap_before_block,
    LastBlock,
};
use leaf_markdown::mailbox::Mailbox;
use leaf_markdown::mermaid_syntax::{
    colorize_line, is_diagram_keyword, is_direction_keyword, is_keyword, is_structure_keyword,
    try_match_arrow, MermaidRole,
};
use leaf_markdown::numbers::{decimal_string, parse_i32, parse_usize};
use leaf_markdown::pointer::{
    line_idx_at, mouse_in_toc_area, scrollbar_scroll_position, strip_unc_prefix, toc_display_index_at,
};

fn spans(line: &str) -> Vec<(String, MermaidRole)> {
    colorize_line(line).into_iter().map(|s| (s.text, s.role)).collect()
}

#[test]
fn mermaid_line_highlighting_covers_every_character() {
    let line = "A[Start] -->|yes| B{Is it?}";
    let got = spans(line);
    let joined: String = got.iter().map(|(t, _)| t.as_str()).collect();
    assert_eq!(joined, line);
    assert!(got.contains(&("-->".to_string(), MermaidRole::Arrow)));
    assert!(got.contains(&("|yes|".to_string(), MermaidRole::Label)));
    let got = spans("flowchart LR");
    assert_eq!(
        got,
        vec![
            ("flowchart".to_string(), MermaidRole::Keyword),
            (" ".to_string(), MermaidRole::Plain),
            ("LR".to_string(), MermaidRole::Keyword),
        ]
    );
    assert_eq!(spans(""), vec![(String::new(), MermaidRole::Plain)]);
    assert_eq!(
        spans("a | b"),
        vec![
            ("a".to_string(), MermaidRole::Plain),
            (" ".to_string(), MermaidRole::Plain),
            ("|".to_string(), MermaidRole::Plain),
            (" ".to_string(), MermaidRole::Plain),
            ("b".to_string(), MermaidRole::Plain),
        ]
    );
    assert_eq!(spans("x-.->y")[0], ("x-".to_string(), MermaidRole::Plain));
}

#[test]
fn mermaid_keywords_and_arrows() {
    assert!(is_diagram_keyword("stateDiagram-v2"));
    assert!(is_direction_keyword("TD"));
    assert!(is_structure_keyword("subgraph"));
    assert!(is_keyword("end"));
    assert!(!is_keyword("End"));
    assert_eq!(try_match_arrow("-.->x"), Some(("-.->".to_string(), 4)));
    assert_eq!(try_match_arrow("==>"), Some(("==>".to_string(), 3)));
    assert_eq!(try_match_arrow("->"), Some(("->".to_string(), 2)));
    assert_eq!(try_match_arrow("-"), None);
}

#[test]
fn line_maps_track_logical_and_source_lines() {
    let mut state = LineMapState::new();
    state.push(true);
    state.push(false);
    state.current_src_line = 5;
    state.mark_all_new(4);
    assert_eq!(state.line_number_map, vec![1, 1, 2, 3]);
    assert_eq!(state.source_line_map, vec![1, 1, 5, 5]);
    state.mark_all_new(2);
    assert_eq!(state.line_number_map.len(), 4);
    state.truncate(3);
    assert_eq!(state.line_number_map, vec![1, 1, 2]);
    assert_eq!(state.source_line_map, vec![1, 1, 5]);
    assert_eq!(state.logical, 3);
}

#[test]
fn line_starts_and_offsets() {
    let starts = compute_line_starts("ab\ncd\n\nz");
    assert_eq!(starts, vec![0, 3, 6, 7]);
    assert_eq!(compute_line_starts("é\nx"), vec![0, 3]);
    assert_eq!(byte_to_line(&starts, 0), 1);
    assert_eq!(byte_to_line(&starts, 4), 2);
    assert_eq!(byte_to_line(&starts, 6), 3);
    assert_eq!(byte_to_line(&starts, 100), 4);
    assert_eq!(byte_to_line(&[], 3), 1);
}

#[test]
fn blocks_and_rules() {
    assert_eq!(rule_width(80, 4), 76);
    assert_eq!(rule_width(10, 4), 8);
    assert_eq!(rule_width(3, 4), 8);
    let mut blocks: Vec<CodeBlockInfo> = Vec::new();
    record_code_block(&mut blocks, "x".into(), 5, 4, BlockLayout { prefix_width: 2, rendered_width: 10 });
    assert!(blocks.is_empty());
    record_code_block(&mut blocks, "x".into(), 5, 9, BlockLayout { prefix_width: 2, rendered_width: 10 });
    assert_eq!(blocks.len(), 1);
    assert_eq!((blocks[0].rendered_offset, blocks[0].rendered_width), (2, 10));
    assert!(is_blockquote_blank_text("▏ ▏ "));
    assert!(!is_blockquote_blank_text(""));
    assert!(!is_blockquote_blank_text("▏ x"));
    assert_eq!(hash_str("same"), hash_str("same"));
}

#[test]
fn footnotes_number_references_then_unreferenced_definitions() {
    assert_eq!(to_superscript(0), "⁰");
    assert_eq!(to_superscript(1234567890), "¹²³⁴⁵⁶⁷⁸⁹⁰");
    let mut notes = FootnoteNumbers::new();
    let b = "b".to_string();
    let a = "a".to_string();
    assert_eq!(notes.register_reference(&b), 1);
    assert_eq!(notes.register_reference(&a), 2);
    assert_eq!(notes.register_reference(&b), 1);
    notes.record_definition(&"c".to_string());
    notes.record_definition(&a);
    notes.record_definition(&"d".to_string());
    notes.record_definition(&"c".to_string());
    let order = notes.numbered_notes();
    assert_eq!(
        order,
        vec![("b".to_string(), 1), ("a".to_string(), 2), ("c".to_string(), 3), ("d".to_string(), 4)]
    );
}

#[test]
fn decimal_text_both_ways() {
    assert_eq!(decimal_string(0), "0");
    assert_eq!(decimal_string(907), "907");
    let chars = |s: &str| s.chars().collect::<Vec<char>>();
    assert_eq!(parse_usize(&chars("+12")), Some(12));
    assert_eq!(parse_usize(&chars("-1")), None);
    assert_eq!(parse_usize(&chars("+")), None);
    assert_eq!(parse_usize(&chars("")), None);
    assert_eq!(parse_usize(&chars("18446744073709551615")), Some(usize::MAX));
    assert_eq!(parse_usize(&chars("18446744073709551616")), None);
    assert_eq!(parse_i32(&chars("-2147483648")), Some(i32::MIN));
    assert_eq!(parse_i32(&chars("2147483648")), None);
    assert_eq!(parse_i32(&chars("-")), None);
}

fn job(request: u64, foreground: bool) -> DiagramJob {
    DiagramJob {
        document: 1,
        request,
        ordinal: 0,
        source: "flowchart TD; A-->B".into(),
        options: MermaidOptions::configured_default(),
        view: if foreground { Some(ViewOptions::default_at(80)) } else { None },
    }
}

fn failed(job: DiagramJob) -> DiagramCompletion {
    let request = job.request;
    DiagramCompletion { job, result: Err(format!("controlled {request}")) }
}

#[test]
fn diagram_worker_replaces_pending_jobs_and_keeps_one_active() {
    let mut mailbox = Mailbox::new();
    assert!(!mailbox.submit(job(1, true)));
    let first = mailbox.begin_job().unwrap();
    assert_eq!(first.request, 1);
    assert!(mailbox.submit(job(2, true)));
    assert!(mailbox.submit(job(3, true)));
    assert!(mailbox.busy());
    // The superseded solve was cancelled; its result is not published.
    assert!(mailbox.finish_job(failed(first), true));
    let next = mailbox.begin_job().unwrap();
    assert_eq!(next.request, 3);
    assert!(mailbox.drain().is_empty());
    assert!(mailbox.finish_job(failed(next), false));
    let ready = mailbox.drain();
    assert_eq!(ready.len(), 1);
    assert_eq!(ready[0].job.request, 3);
    assert!(!mailbox.busy());
}

#[test]
fn diagram_worker_close_preserves_preview_but_document_change_cancels_it() {
    let mut mailbox = Mailbox::new();
    mailbox.submit(job(1, false));
    mailbox.begin_job().unwrap();
    assert!(!mailbox.cancel_foreground(), "closing does not cancel a valid configured preview");
    assert!(mailbox.cancel_all(), "new document cancels its predecessor's preview");
}

#[test]
fn diagram_worker_keeps_at_most_two_results_and_stops() {
    let mut mailbox = Mailbox::new();
    for request in 1..=3 {
        mailbox.submit(job(request, false));
        let j = mailbox.begin_job().unwrap();
        assert!(mailbox.finish_job(failed(j), false));
    }
    let ready = mailbox.drain();
    assert_eq!(ready.iter().map(|c| c.job.request).collect::<Vec<_>>(), vec![2, 3]);
    mailbox.submit(job(4, true));
    assert!(!mailbox.shut_down());
    assert!(mailbox.begin_job().is_none());
    assert!(!mailbox.finish_job(failed(job(5, true)), false));
}

#[test]
fn pointer_hit_testing() {
    let toc = Rect { x: 0, y: 2, width: 20, height: 10 };
    assert!(mouse_in_toc_area(Some(toc), 5, 5));
    assert!(!mouse_in_toc_area(Some(toc), 20, 5));
    assert!(!mouse_in_toc_area(None, 5, 5));
    assert_eq!(toc_display_index_at(toc, 30, 4, 3, 2), Some(4));
    assert_eq!(toc_display_index_at(toc, 30, 4, 19, 2), None);
    assert_eq!(toc_display_index_at(toc, 5, 4, 3, 3), None);
    let content = Rect { x: 0, y: 1, width: 80, height: 11 };
    assert_eq!(scrollbar_scroll_position(content, 100, 0), None);
    assert_eq!(scrollbar_scroll_position(content, 100, 1), Some(0));
    assert_eq!(scrollbar_scroll_position(content, 100, 6), Some(50));
    assert_eq!(scrollbar_scroll_position(content, 100, 40), Some(100));
    let mut app = App::new(10);
    app.content_area = content;
    app.max_scroll = 100;
    app.scrollbar_scroll_to(6);
    assert_eq!(app.scroll, 50);
    let widths = vec![0, 25, 5, 10];
    let area = Rect { x: 0, y: 0, width: 14, height: 10 };
    // Text box: 1 column of padding each side and a 1-column scrollbar.
    assert_eq!(line_idx_at(area, 0, 1, 1, &widths, 0, 1, 0), Some(0));
    assert_eq!(line_idx_at(area, 0, 1, 1, &widths, 0, 1, 1), Some(1));
    assert_eq!(line_idx_at(area, 0, 1, 1, &widths, 0, 1, 3), Some(1));
    assert_eq!(line_idx_at(area, 0, 1, 1, &widths, 0, 1, 4), Some(2));
    assert_eq!(line_idx_at(area, 0, 1, 1, &widths, 0, 0, 4), None);
    assert_eq!(line_idx_at(area, 0, 1, 1, &widths, 0, 1, 9), None);
    assert_eq!(strip_unc_prefix("\\\\?\\C:\\docs", true), "C:\\docs");
    assert_eq!(strip_unc_prefix("\\\\?\\C:\\docs", false), "\\\\?\\C:\\docs");
}

#[test]
fn reflow_anchor_survives_preview_height_changes() {
    let mut app = App::new(10);
    app.set_diagrams(vec![DiagramBlockInfo {
        ordinal: 0,
        code_block_index: 0,
        source: "graph TD".into(),
        rendered_start: 4,
        rendered_end: 12,
        source_line: 7,
    }]);
    app.source_line_map = (0..40).map(|i| i / 2 + 1).collect();
    app.scroll = 6;
    let anchor = app.diagram_reflow_anchor();
    assert_eq!(anchor, 7);
    // The document was reparsed: the diagram now starts further down.
    app.set_diagrams(vec![DiagramBlockInfo {
        ordinal: 0,
        code_block_index: 0,
        source: "graph TD".into(),
        rendered_start: 9,
        rendered_end: 30,
        source_line: 7,
    }]);
    app.max_scroll = 35;
    app.code_blocks_len = 1;
    app.finish_diagram_reflow(anchor, Some(3));
    assert_eq!(app.scroll, 9);
    assert_eq!(app.code_select, None);
    app.scroll = 36;
    assert_eq!(app.diagram_reflow_anchor(), 19);
    app.finish_diagram_reflow(19, Some(0));
    assert_eq!(app.scroll, 35);
    assert_eq!(app.code_select, Some(0));
}

#[test]
fn notes_heading_and_markers() {
    assert_eq!(notes_heading(), ("Notes".to_string(), "─────".to_string()));
    assert_eq!(note_prefix(12), ("¹² ".to_string(), "   ".to_string()));
    assert_eq!(note_prefix(3), ("³ ".to_string(), "  ".to_string()));
}

#[test]
fn heading_rules_blockquote_markers_and_alert_labels() {
    assert_eq!(heading_underline(1, "Title", 80), Some("═════".to_string()));
    assert_eq!(heading_underline(2, "Hello wide world", 10), Some("─".repeat(10)));
    assert_eq!(heading_underline(2, "Hi", 2), Some("──".to_string()));
    assert_eq!(heading_underline(3, "Title", 80), None);
    assert_eq!(blockquote_prefix(0), "");
    assert_eq!(blockquote_prefix(2), "▏ ▏ ");
    assert!(is_blockquote_blank_text(&blockquote_prefix(3)));
    assert_eq!(alert_icon_label(AlertKind::Caution), ("[x]", "Caution"));
    assert_eq!(alert_icon_label(AlertKind::Important), ("[!]", "Important"));
}

#[test]
fn code_selection_keys() {
    assert_eq!(code_select_command(KeyCode::Char('c'), true), Some(CodeSelectCommand::Exit));
    assert_eq!(code_select_command(KeyCode::Char('y'), true), Some(CodeSelectCommand::Copy));
    assert_eq!(code_select_command(KeyCode::Char('y'), false), Some(CodeSelectCommand::Next));
    assert_eq!(code_select_command(KeyCode::Char('C'), false), Some(CodeSelectCommand::Prev));
    assert_eq!(code_select_command(KeyCode::Char('Y'), true), Some(CodeSelectCommand::Prev));
    assert_eq!(code_select_command(KeyCode::Enter, false), Some(CodeSelectCommand::Copy));
    assert_eq!(code_select_command(KeyCode::Esc, false), Some(CodeSelectCommand::Exit));
    assert_eq!(code_select_command(KeyCode::Char('x'), false), None);
    assert_eq!(code_entry_command(KeyCode::Char('y'), true), Some(CodeEntryCommand::CopyFirstVisible));
    assert_eq!(code_entry_command(KeyCode::Char('C'), false), Some(CodeEntryCommand::EnterSelect));
    assert_eq!(code_entry_command(KeyCode::Char('c'), true), None);
    assert_eq!(code_entry_command(KeyCode::Enter, false), None);
}

fn rendered(lines: &[&[&str]]) -> Vec<Vec<String>> {
    lines.iter().map(|spans| spans.iter().map(|s| s.to_string()).collect()).collect()
}

#[test]
fn wrapped_continuations_share_a_logical_line() {
    let lines = rendered(&[&["Hello"], &["world"], &["┌─ code ─┐"], &["│", "x"], &["┊", "y"], &[]]);
    let mut state = LineMapState::new();
    state.mark_wrapped(0, 6, &lines);
    assert_eq!(state.line_number_map, vec![1, 1, 2, 3, 3, 4]);
    assert_eq!(state.source_line_map, vec![1; 6]);
    // Lines already recorded are not recorded again.
    state.mark_wrapped(0, 6, &lines);
    assert_eq!(state.line_number_map.len(), 6);
}

#[test]
fn table_borders_and_the_rows_after_them_count() {
    let lines = rendered(&[&["┌──┐"], &["│ a │"], &["├──┤"], &["│ b │"], &["│ c │"], &["└──┘"]]);
    let mut state = LineMapState::new();
    state.mark_table_lines(10, &lines);
    assert_eq!(state.line_number_map, vec![1, 2, 3, 4, 4, 5]);
}

#[test]
fn frame_and_border_spans() {
    assert!(is_frame_span("│12│"));
    assert!(!is_frame_span("│ab│"));
    assert!(is_frame_span("│"));
    assert!(is_frame_span("╚═╝"));
    assert!(!is_frame_span(""));
    assert!(is_border_span("╞══╡"));
    assert!(!is_border_span("│ a │"));
}

#[test]
fn blank_gaps_before_blocks_are_dropped() {
    assert_eq!(line_plain_text(&vec!["▏ ".to_string(), "quote".to_string()]), "▏ quote");
    let mut lines = rendered(&[&["text"], &["▏ ", "▏ "]]);
    pop_trailing_blockquote_gap(&mut lines);
    assert_eq!(lines, rendered(&[&["text"]]));
    pop_trailing_blockquote_gap(&mut lines);
    assert_eq!(lines, rendered(&[&["text"]]));
    let mut lines = rendered(&[&["para"], &[]]);
    trim_paragraph_gap_before_block(&mut lines, LastBlock::Other);
    assert_eq!(lines.len(), 2);
    trim_paragraph_gap_before_block(&mut lines, LastBlock::Paragraph);
    assert_eq!(lines, rendered(&[&["para"]]));
    let mut lines = rendered(&[&["▏ quote"], &["▏ "]]);
    trim_paragraph_gap_before_block(&mut lines, LastBlock::Blockquote);
    assert_eq!(lines, rendered(&[&["▏ quote"]]));
}

#[test]
fn ending_a_block_quote_closes_it_with_a_gap() {
    assert_eq!(blockquote_marker_spans(2), vec!["▏ ".to_string(), "▏ ".to_string()]);
    let mut lines = rendered(&[&["para"]]);
    let mut spans = vec!["quoted".to_string()];
    let mut depth = 1usize;
    end_blockquote(&mut lines, &mut spans, &mut depth);
    assert_eq!(lines, rendered(&[&["para"], &["▏ ", "quoted"], &[""]]));
    assert!(spans.is_empty());
    assert_eq!(depth, 0);
    let mut lines = rendered(&[&["x"], &["▏ ", "▏ "]]);
    let mut depth = 2usize;
    end_blockquote(&mut lines, &mut Vec::new(), &mut depth);
    assert_eq!(lines, rendered(&[&["x"], &["▏ "]]));
    assert_eq!(depth, 1);
}

#[test]
fn byte_line_is_one_plus_newlines_before() {
    let text = "ab\ncd\n\nxyz\n";
    let starts = compute_line_starts(text);
    for offset in 0..=text.len() {
        let newlines = text.as_bytes()[..offset].iter().filter(|&&b| b == b'\n').count();
        assert_eq!(byte_to_line(&starts, offset), 1 + newlines, "offset {offset}");
    }
    for (offset, line) in [(0, 1), (1, 1), (2, 2), (4, 2), (5, 3)] {
        assert_eq!(byte_to_line(&[0, 2, 5], offset), line);
    }
}
