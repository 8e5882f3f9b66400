use leaf_markdown::block_frame::{
    code_block_label, code_gutter_width, frame_footer, frame_header, line_gutter, special_frame, CODE_BLOCK_GUTTER,
};
use leaf_markdown::diagram_screen::{LAYOUT_NOTE, PREPARING, VIEW_CONTROLS};
use leaf_markdown::diagrams::{App, DiagramBlockInfo, Rect};
use leaf_markdown::mermaid_block::{
    frame_bottom, frame_top, mermaid_block_lines, mermaid_window, notice_line, row_gutter, row_padding,
    MermaidWindow, MIN_FRAME_WIDTH,
};
use leaf_markdown::mermaid_syntax::{mermaid_precheck, MermaidKind};
use leaf_markdown::numbers::{decimal_string, parse_usize};
use leaf_markdown::preview::MermaidPreview;
use leaf_markdown::document::blockquote_prefix;
use leaf_markdown::plain_output::write_lines_with_unwrapped;
use leaf_markdown::text::display_width;

fn lines(text: &[&str]) -> Vec<String> {
    text.iter().map(|s| s.to_string()).collect()
}

fn preview(text: &str, width: usize, height: usize) -> MermaidPreview {
    MermaidPreview {
        text: text.to_string(),
        width,
        height,
        warning: None,
        nodes: vec![],
        overview: false,
        hidden_nodes: 0,
    }
}

fn first_cells(s: &str, n: usize) -> String {
    s.chars().take(n).collect()
}

#[test]
fn loading_block_is_framed_at_minimum_width() {
    let (out, layout, drawn) = mermaid_block_lines("graph TD", None, None, "│ ", 80, false, false, true, "50/50/20");
    assert_eq!(drawn, "│ ");
    let bar = "─".repeat(MIN_FRAME_WIDTH - 12);
    assert_eq!(
        out,
        vec![
            format!("┌─ mermaid {bar}┐"),
            format!("│ Loading diagram…{} │", " ".repeat(24)),
            format!("│ loading · v open · Enter copy source{} │", " ".repeat(4)),
            format!("└{}┘", "─".repeat(MIN_FRAME_WIDTH - 2)),
        ]
    );
    assert_eq!(layout.prefix_width, 2);
    assert_eq!(layout.rendered_width, MIN_FRAME_WIDTH);
}

#[test]
fn failed_layout_numbers_source_rows_and_clips_the_notice() {
    let (out, layout, _) =
        mermaid_block_lines("graph TD\nA-->B", None, Some("bad"), "", 80, false, true, true, "50/50/20");
    assert_eq!(layout.rendered_width, 44);
    assert_eq!(out.len(), 5);
    assert_eq!(out[1], format!("│1│graph TD{} │", " ".repeat(31)));
    assert_eq!(out[2], format!("│2│A-->B{} │", " ".repeat(34)));
    // 42 cells of notice text are cut to the 40 inside the frame.
    assert_eq!(out[3], "│ preview 8×2 · warning · v open/source: b │");
}

#[test]
fn narrow_preview_shows_every_row_and_its_size() {
    let p = preview("A\nB", 1, 2);
    let (out, _, _) = mermaid_block_lines("graph TD", Some(&p), None, "", 80, false, false, true, "50/50/20");
    assert_eq!(out.len(), 5);
    assert_eq!(out[1], format!("│ A{} │", " ".repeat(39)));
    assert_eq!(out[2], format!("│ B{} │", " ".repeat(39)));
    assert_eq!(out[3], format!("│ 1×2 · v open · Enter copy source{} │", " ".repeat(8)));
}

#[test]
fn wide_canvas_is_clipped_to_the_render_width() {
    let row = "x".repeat(100);
    let rows = lines(&[&row, &row, &row]);
    let p = preview(&rows.join("\n"), 100, 3);
    let w = mermaid_window(&rows, Some(&p), false, 0, 60, false, false);
    assert_eq!(w.frame_width, 60);
    assert_eq!(w.body_width, 56);
    assert!(!w.full_height);
    assert_eq!((w.start_x, w.end_x, w.start_y, w.end_y), (0, 56, 0, 3));
    assert!(w.clipped);
    let (out, _, _) = mermaid_block_lines("graph TD", Some(&p), None, "", 60, false, false, true, "50/50/20");
    assert_eq!(out.len(), 7);
    assert!(out[4].starts_with("│ clipped 100×3 · v open · / search in viewer"));
    assert!(out[5].starts_with("│ clipped 100×3 · x=0 y=0"));
    let (uncached, _, _) = mermaid_block_lines("graph TD", Some(&p), None, "", 60, false, false, false, "50/50/20");
    assert!(uncached[5].starts_with("│ clipped 100×3 · --mermaid-full for full export"));
}

#[test]
fn blank_canvas_rows_do_not_use_the_preview_budget() {
    let row = "x".repeat(100);
    let rows = lines(&["", &row, "   "]);
    let p = preview(&rows.join("\n"), 100, 3);
    let w = mermaid_window(&rows, Some(&p), false, 0, 60, false, false);
    assert_eq!((w.start_y, w.end_y), (1, 2));
    assert!(w.clipped);
}

#[test]
fn complete_export_of_a_failed_layout_is_unframed_source() {
    let rows = lines(&["graph TD", "A-->B"]);
    let w = mermaid_window(&rows, None, true, 0, 10, true, true);
    assert!(w.source_complete);
    assert_eq!(w.frame_width, MIN_FRAME_WIDTH);
    assert!(w.full_height);
    let (out, _, _) = mermaid_block_lines("graph TD\nA-->B", None, Some("bad"), "", 10, true, true, true, "");
    assert_eq!(out[1], "graph TD");
    assert_eq!(out[2], "A-->B");
    assert_eq!(out[3], "│ source 8×2 · warning · v open/source: ba │");
    assert_eq!(out.len(), 5);
}

#[test]
fn frame_edges_and_row_pieces() {
    assert_eq!(frame_top(14), "┌─ mermaid ──┐");
    assert_eq!(frame_top(5), "┌─ me");
    assert_eq!(frame_bottom(4), "└──┘");
    assert_eq!(notice_line(3, "abcdef"), "abc");
    assert_eq!(notice_line(8, "abcdef"), "│ abcd │");
    let w = MermaidWindow {
        canvas_width: 5,
        canvas_height: 12,
        numbered: true,
        digits: 2,
        gutter: 4,
        frame_width: 44,
        body_width: 38,
        full_height: true,
        source_complete: false,
        start_x: 0,
        end_x: 38,
        start_y: 0,
        end_y: 12,
        clipped: false,
    };
    assert_eq!(row_gutter(&w, 0), "│ 1│");
    assert_eq!(row_gutter(&w, 11), "│12│");
    assert_eq!(row_padding(&w, 35), "    │");
}

#[test]
fn precheck_sorts_sources() {
    assert!(matches!(mermaid_precheck("pie title Pets\n\"Dogs\" : 3", 1000), Ok(MermaidKind::Pie)));
    assert!(matches!(mermaid_precheck("graph TD\nA-->B", 1000), Ok(MermaidKind::Engine)));
    assert_eq!(mermaid_precheck("  \n\t", 1000).unwrap_err(), "Empty Mermaid diagram");
    assert_eq!(mermaid_precheck("graph TD", 3).unwrap_err(), "Mermaid source exceeds the input limit");
}

#[test]
fn decimal_text_reads_back() {
    for n in [0usize, 7, 10, 4096, 1234567] {
        let text = decimal_string(n);
        let chars: Vec<char> = text.chars().collect();
        assert_eq!(parse_usize(&chars), Some(n));
    }
}

#[test]
fn loading_viewer_screen_shows_preparation_and_controls() {
    let mut app = App::new(50_000);
    app.set_diagrams(vec![DiagramBlockInfo {
        ordinal: 0,
        code_block_index: 0,
        source: "graph TD\nA-->B\n".to_string(),
        rendered_start: 2,
        rendered_end: 10,
        source_line: 3,
    }]);
    app.content_area = Rect { x: 0, y: 0, width: 80, height: 30 };
    app.visible_end = 30;
    app.max_scroll = 0;
    app.code_blocks_len = 1;
    app.diagrams.service = true;
    app.open_diagram();
    let viewer = app.diagram_viewer().unwrap();
    let screen = viewer.screen(40, Rect { x: 0, y: 1, width: 40, height: 10 }, "50/50/20");
    assert_eq!(
        screen.title,
        first_cells(" Mermaid #1 · loading · full · configured 50/50/20 · authored direction", 40)
    );
    assert_eq!(screen.body, vec![first_cells(PREPARING, 40)]);
    assert_eq!(screen.highlight, None);
    assert_eq!(
        screen.footer,
        vec![
            " 0×0 cells x=0 y=0".to_string(),
            first_cells(LAYOUT_NOTE, 40),
            first_cells(VIEW_CONTROLS, 40),
        ]
    );
}

#[test]
fn special_block_frame_measures() {
    let f = special_frame("latex", &lines(&["a^2"]), 80, false, false);
    assert_eq!(
        (f.digit_width, f.gutter_width, f.inner_width, f.content_width, f.center_pad),
        (0, 1, 44, 42, 0)
    );
    let rows: Vec<String> = (0..12).map(|_| "x".repeat(10)).collect();
    let g = special_frame("math", &rows, 30, true, true);
    assert_eq!(
        (g.digit_width, g.gutter_width, g.inner_width, g.content_width, g.center_pad),
        (2, 4, 28, 23, 6)
    );
}

#[test]
fn block_frame_edges_and_gutters() {
    assert_eq!(frame_header("rust", 20), format!("┌─ rust {}┐", "─".repeat(13)));
    assert_eq!(frame_footer(20, 4, true), format!("└──┴{}┘", "─".repeat(17)));
    assert_eq!(frame_footer(5, 1, false), "└─────┘");
    assert_eq!(line_gutter(true, 3, 4, true), "│  5│");
    assert_eq!(line_gutter(true, 3, 4, false), "│   │");
    assert_eq!(line_gutter(false, 0, 4, true), CODE_BLOCK_GUTTER);
    assert_eq!(line_gutter(false, 0, 4, false), "┊");
    assert_eq!(code_block_label(""), "text");
    assert_eq!(code_block_label("rust"), "rust");
    assert_eq!(code_gutter_width(true, 3), 5);
    assert_eq!(code_gutter_width(false, 3), 1);
}

#[test]
fn complete_export_window_covers_the_canvas() {
    let row = "x".repeat(100);
    let rows = lines(&["", &row, ""]);
    let p = preview(&rows.join("\n"), 100, 3);
    let w = mermaid_window(&rows, Some(&p), false, 4, 60, true, false);
    assert!(w.full_height);
    assert_eq!((w.start_x, w.start_y, w.end_y), (0, 0, 3));
    assert!(w.body_width >= w.canvas_width);
    let narrow = mermaid_window(&rows, Some(&p), false, 4, 60, false, false);
    assert!(narrow.frame_width <= 56);
    assert!(narrow.end_x - narrow.start_x <= narrow.body_width);
}

#[test]
fn complete_source_fallback_does_not_allocate_a_padded_rectangle() {
    let raw = format!("{}\n{}", "x".repeat(50_000), "short\n".repeat(1000));
    let (lines, _, _) =
        mermaid_block_lines(&raw, None, Some("Input limit exceeded"), "", 80, true, true, true, "50/50/20");
    let output = lines.join("\n");
    assert!(output.len() < raw.len() + 1000, "fallback must be proportional to source bytes");
    assert_eq!(output.matches("short").count(), 1000);
    assert!(output.contains(&"x".repeat(50_000)));
}

#[test]
fn clipped_preview_is_at_most_twenty_four_rows() {
    let row = "x".repeat(100);
    let rows: Vec<String> = (0..50).map(|_| row.clone()).collect();
    let p = preview(&rows.join("\n"), 100, 50);
    let w = mermaid_window(&rows, Some(&p), false, 0, 60, false, false);
    assert!(!w.full_height);
    assert_eq!((w.start_y, w.end_y), (0, 24));
    assert!(w.clipped);
}

#[test]
fn cached_canvas_is_clipped_not_rewrapped_and_full_export_is_unwrapped() {
    let raw = "flowchart LR\nA-->B\n";
    let row = format!("LEFT{}RIGHT", "─".repeat(120));
    let canvas = std::iter::repeat_n(row.clone(), 40).collect::<Vec<_>>().join("\n");
    let p = preview(&canvas, 129, 40);
    for width in [1usize, 4, 20, 40, 80] {
        let (rows, _, _) = mermaid_block_lines(raw, Some(&p), None, "", width, false, true, true, "50/50/20");
        assert!(rows.iter().all(|row| display_width(row) <= width), "{width}: {rows:?}");
        assert!(!rows.iter().any(|row| row.contains("RIGHT")));
        assert!(rows.len() - 1 <= 28);
        if width >= 40 {
            assert!(rows.iter().any(|row| row.contains("clipped 129×40")));
        }
    }
    let (full, _, _) = mermaid_block_lines(raw, Some(&p), None, "", 40, true, true, true, "50/50/20");
    let output = write_lines_with_unwrapped(&full, 40, &vec![(0, full.len() - 1)]);
    assert_eq!(output.matches(&row).count(), 40);
}

#[test]
fn nested_preview_prefixes_fit_and_original_source_is_preserved() {
    let raw = "A-->B\n";
    let p = preview(&"界👩\u{200d}💻e\u{301}".repeat(25), 125, 1);
    for prefix in [blockquote_prefix(1), "  ".to_string()] {
        let (lines, layout, drawn) =
            mermaid_block_lines(raw, Some(&p), None, &prefix, 30, false, true, true, "50/50/20");
        assert_eq!(layout.prefix_width, 2);
        assert_eq!(drawn, prefix);
        for line in &lines {
            assert!(display_width(&format!("{prefix}{line}")) <= 30, "{line}");
        }
    }
}

#[test]
fn wide_prefix_is_cut_to_leave_four_columns() {
    let prefix = blockquote_prefix(5);
    assert_eq!(display_width(&prefix), 10);
    let (lines, layout, drawn) =
        mermaid_block_lines("graph TD", None, None, &prefix, 12, false, false, true, "50/50/20");
    assert_eq!(drawn, blockquote_prefix(4));
    assert_eq!(layout.prefix_width, 8);
    assert_eq!(layout.rendered_width, 4);
    for line in &lines {
        assert!(display_width(&format!("{drawn}{line}")) <= 12, "{line}");
    }
    let (_, whole, kept) = mermaid_block_lines("graph TD", None, None, &prefix, 12, true, false, true, "50/50/20");
    assert_eq!(kept, prefix);
    assert_eq!(whole.prefix_width, 10);
}
