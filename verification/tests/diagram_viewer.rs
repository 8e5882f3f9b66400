use leaf_markdown::diagram_keys::{KeyCode, MouseAction};
use leaf_markdown::diagram_screen::diagram_layout;
use leaf_markdown::diagram_model::{
    Capabilities, CatalogObject, DiagramCompletion, DiagramJob, DiagramOutput, Direction, ObjectId,
    ObjectKind, VisibleObject,
};
use leaf_markdown::diagrams::{App, DiagramAction, DiagramBlockInfo, DiagramViewer, Rect};
use leaf_markdown::preview::{CellRect, MermaidPreview};
use leaf_markdown::preview_cache::PREVIEW_CACHE_ENTRIES;

const SOURCE: &str = "flowchart LR\nsubgraph G[Group]\nA[Alpha] --> B[Beta]\nend\n";

fn block(ordinal: usize, source: &str) -> DiagramBlockInfo {
    DiagramBlockInfo {
        ordinal,
        code_block_index: ordinal,
        source: source.to_string(),
        rendered_start: 2 + ordinal * 20,
        rendered_end: 10 + ordinal * 20,
        source_line: 3 + ordinal * 6,
    }
}

fn fixture() -> App {
    let mut app = App::new(50_000);
    app.set_diagrams(vec![block(0, SOURCE)]);
    app.content_area = Rect { x: 0, y: 0, width: 80, height: 30 };
    app.visible_end = 30;
    app.max_scroll = 0;
    app.code_blocks_len = 1;
    app.diagrams.service = true;
    app
}

fn id(kind: ObjectKind, id: &str) -> ObjectId {
    ObjectId { kind, id: id.to_string() }
}

fn rect(x: usize, y: usize, width: usize, height: usize) -> CellRect {
    CellRect { x, y, width, height }
}

fn output(marker: &str) -> DiagramOutput {
    DiagramOutput {
        rows: vec![format!("{marker}{}", "─".repeat(198)); 70],
        width: 200,
        height: 70,
        catalog: vec![
            CatalogObject { id: id(ObjectKind::Subgraph, "G"), label: "Group".into(), ancestors: vec![] },
            CatalogObject { id: id(ObjectKind::Node, "A"), label: "Alpha".into(), ancestors: vec!["G".into()] },
            CatalogObject { id: id(ObjectKind::Node, "B"), label: "Beta".into(), ancestors: vec!["G".into()] },
        ],
        objects: vec![
            VisibleObject { id: id(ObjectKind::Subgraph, "G"), bounds: rect(0, 0, 100, 50) },
            VisibleObject { id: id(ObjectKind::Node, "A"), bounds: rect(20, 10, 10, 5) },
        ],
        capabilities: Capabilities { collapse: true, focus: true, direction: true, members: true },
        direction: Some(Direction::LeftRight),
        summary: marker.into(),
        warnings: vec![],
        overview: false,
        visible_nodes: 1,
        original_nodes: 2,
        hidden_nodes: 1,
        boundary_edges: 1,
    }
}

fn completion_with(app: &App, request: u64, result: DiagramOutput) -> DiagramCompletion {
    let viewer = app.diagram_viewer().unwrap();
    DiagramCompletion {
        job: DiagramJob {
            document: app.diagrams.document,
            request,
            ordinal: viewer.ordinal,
            source: viewer.source.clone(),
            options: app.diagrams.options,
            view: Some(viewer.view.duplicate()),
        },
        result: Ok(result),
    }
}

fn completion(app: &App, request: u64, marker: &str) -> DiagramCompletion {
    completion_with(app, request, output(marker))
}

/// One pass of the event loop's diagram polling at time 0.
fn poll(app: &mut App, completions: Vec<DiagramCompletion>) -> bool {
    let (viewer_changed, _previews) = app.absorb_diagram_completions(completions);
    let overview = app.apply_auto_overview();
    let resized = app.finish_diagram_resize(0);
    viewer_changed || overview || resized
}

fn request(app: &App) -> u64 {
    app.diagram_viewer().unwrap().request
}

fn make_ready(app: &mut App) {
    let c = completion(app, request(app), "ready");
    assert!(poll(app, vec![c]));
    app.set_diagram_area(Rect { x: 0, y: 1, width: 80, height: 26 }, 0);
}

fn ident(id: &Option<ObjectId>) -> Option<(ObjectKind, String)> {
    id.as_ref().map(|id| (id.kind, id.id.clone()))
}

fn selected(app: &App) -> Option<(ObjectKind, String)> {
    ident(&app.diagram_viewer().unwrap().selected)
}

fn summary(app: &App) -> Option<String> {
    app.diagram_viewer().unwrap().output.as_ref().map(|o| o.summary.clone())
}

#[test]
fn diagram_initial_view_uses_width_and_preserves_manual_choice() {
    for (width, height, overview) in [(200, 70, false), (199, 70, true), (200, 20, false)] {
        let mut app = fixture();
        app.open_diagram();
        app.set_diagram_area(Rect { x: 0, y: 1, width, height }, 0);
        let c = completion(&app, request(&app), "full");
        poll(&mut app, vec![c]);
        let viewer = app.diagram_viewer().unwrap();
        assert_eq!(viewer.view.overview, overview);
        assert!(!viewer.auto_overview);
        if !overview {
            assert_eq!((viewer.x, viewer.y), (0, 0));
        } else {
            app.diagram_control('o');
            assert!(!app.diagram_viewer().unwrap().view.overview);
            poll(&mut app, vec![]);
            assert!(!app.diagram_viewer().unwrap().view.overview);
        }
    }
}

#[test]
fn diagram_modal_preserves_document_and_source_copy_selection() {
    let mut app = fixture();
    app.code_select = Some(app.diagrams.blocks[0].code_block_index);
    let selected = app.code_select;
    let scroll = app.scroll;
    app.open_diagram();
    make_ready(&mut app);
    app.pan_diagram(1000, 1000);
    let viewer = app.diagram_viewer().unwrap();
    assert_eq!((viewer.x, viewer.y), (160, 57));
    app.close_diagram();
    assert_eq!(app.scroll, scroll);
    assert_eq!(app.code_select, selected);
}

#[test]
fn diagram_stale_a_cannot_replace_requested_b() {
    let mut app = fixture();
    app.open_diagram();
    let request_a = request(&app);
    let stale = completion(&app, request_a, "STALE-A");
    app.diagram_control('c');
    let request_b = request(&app);
    assert_ne!(request_a, request_b);
    poll(&mut app, vec![stale]);
    assert!(summary(&app).is_none());
    let current = completion(&app, request_b, "CURRENT-B");
    poll(&mut app, vec![current]);
    assert_eq!(summary(&app).as_deref(), Some("CURRENT-B"));
}

#[test]
fn diagram_closed_and_reloaded_completions_are_ignored() {
    let mut app = fixture();
    app.open_diagram();
    let stale = completion(&app, request(&app), "CLOSED");
    app.close_diagram();
    poll(&mut app, vec![stale]);
    assert!(!app.is_diagram_open());
    app.open_diagram();
    let stale = completion(&app, request(&app), "OLD-DOCUMENT");
    app.reset_diagram_document();
    app.open_diagram();
    poll(&mut app, vec![stale]);
    assert!(summary(&app).is_none());
}

#[test]
fn diagram_pan_visible_selection_and_search_do_not_request_layout() {
    let mut app = fixture();
    app.open_diagram();
    make_ready(&mut app);
    let request = app.diagrams.next_request;
    app.pan_diagram(10, 3);
    app.select_next_diagram_object(false);
    app.begin_diagram_search();
    for c in "Alpha".chars() {
        app.edit_diagram_search(Some(c));
    }
    app.confirm_diagram_search();
    assert_eq!(app.diagrams.next_request, request);
    assert_eq!(selected(&app), Some((ObjectKind::Node, "A".to_string())));
}

#[test]
fn diagram_search_hidden_node_reveals_ancestors_and_relayouts_once() {
    let mut app = fixture();
    app.open_diagram();
    make_ready(&mut app);
    app.diagrams.viewer.as_mut().unwrap().view.overview = true;
    let request = app.diagrams.next_request;
    app.begin_diagram_search();
    for c in "Beta".chars() {
        app.edit_diagram_search(Some(c));
    }
    app.confirm_diagram_search();
    let viewer = app.diagram_viewer().unwrap();
    assert_eq!(app.diagrams.next_request, request + 1);
    assert!(viewer.view.expanded.contains(&"G".to_string()));
    assert_eq!(ident(&viewer.selected), Some((ObjectKind::Node, "B".to_string())));
}

#[test]
fn diagram_source_toggle_never_replaces_original_and_has_separate_pan() {
    let mut app = fixture();
    app.open_diagram();
    make_ready(&mut app);
    let original = app.diagrams.blocks[0].source.clone();
    app.pan_diagram(30, 10);
    app.diagram_control('s');
    assert_eq!(app.diagram_viewer().unwrap().source, original);
    assert!(app.diagram_viewer().unwrap().source_mode);
    app.diagram_control('s');
    let viewer = app.diagram_viewer().unwrap();
    assert_eq!((viewer.x, viewer.y), (30, 10));
}

#[test]
fn diagram_identical_blocks_share_preview_but_keep_selection_identity() {
    let mut app = fixture();
    app.set_diagrams(vec![block(0, SOURCE), block(1, SOURCE)]);
    app.code_blocks_len = 2;
    assert_eq!(app.diagrams.blocks.len(), 2);
    assert_eq!(app.diagrams.blocks[0].source, app.diagrams.blocks[1].source);
    app.cache_diagram_preview(SOURCE.to_string(), Ok(output("shared").preview()));
    assert_eq!(app.diagrams.previews.len(), 1);
    app.code_select = Some(app.diagrams.blocks[1].code_block_index);
    app.open_diagram();
    assert_eq!(app.diagram_viewer().unwrap().ordinal, 1);
}

#[test]
fn diagram_preview_completion_after_close_remains_valid_for_document() {
    let mut app = fixture();
    let mut rendered = output("PREVIEW");
    rendered.objects[1].bounds.x = 0;
    let preview = DiagramCompletion {
        job: DiagramJob {
            document: app.diagrams.document,
            request: 0,
            ordinal: app.diagrams.blocks[0].ordinal,
            source: app.diagrams.blocks[0].source.clone(),
            options: app.diagrams.options,
            view: None,
        },
        result: Ok(rendered),
    };
    app.open_diagram();
    app.close_diagram();
    let (_, previews_changed) = app.absorb_diagram_completions(vec![preview]);
    assert!(previews_changed);
    assert!(!app.is_diagram_open());
    assert_eq!(app.diagrams.previews.len(), 1);
    let stored = app.diagrams.previews.get(&SOURCE.to_string()).unwrap().as_ref().unwrap();
    assert!(stored.text.contains("PREVIEW"));
}

#[test]
fn diagram_preview_cache_evicts_entries_within_budget() {
    let mut app = fixture();
    for i in 0..100 {
        app.cache_diagram_preview(format!("source{i}"), Err("error".into()));
    }
    assert_eq!(app.diagrams.previews.len(), PREVIEW_CACHE_ENTRIES);
    assert!(!app.diagrams.previews.contains_key(&"source0".to_string()));
    assert!(app.diagrams.previews.contains_key(&"source99".to_string()));
}

#[test]
fn diagram_initial_open_centers_first_node_outside_empty_origin() {
    let mut app = fixture();
    app.open_diagram();
    let mut rendered = output("far");
    rendered.rows = vec![" ".repeat(200); 70];
    rendered.rows[60] = format!("{}NODE{}", " ".repeat(150), " ".repeat(46));
    rendered.objects[1].bounds = rect(150, 60, 10, 5);
    let done = completion_with(&app, request(&app), rendered);
    poll(&mut app, vec![done]);
    app.set_diagram_area(Rect { x: 0, y: 1, width: 80, height: 27 }, 0);
    let viewer = app.diagram_viewer().unwrap();
    assert_eq!(ident(&viewer.selected), Some((ObjectKind::Node, "A".to_string())));
    assert!(viewer.x > 0 && viewer.y > 0);
    assert!(viewer.x <= 150 && viewer.x + 80 >= 160);
    assert!(viewer.y <= 60 && viewer.y + 27 >= 65);
}

#[test]
fn diagram_short_canvas_bottom_node_is_centered_not_pinned_to_screen_bottom() {
    let mut app = fixture();
    app.open_diagram();
    let mut rendered = output("bottom");
    rendered.height = 41;
    rendered.rows = vec![String::new(); 41];
    rendered.rows[37] = "                    Node 1".into();
    rendered.objects[1].bounds = rect(20, 36, 10, 3);
    let done = completion_with(&app, request(&app), rendered);
    poll(&mut app, vec![done]);
    app.set_diagram_area(Rect { x: 0, y: 1, width: 120, height: 38 }, 0);
    let viewer = app.diagram_viewer().unwrap();
    assert_eq!(37 - viewer.y, viewer.area.height as usize / 2);
    let pan = (viewer.x, viewer.y);
    app.diagram_control('s');
    assert_eq!(app.diagram_viewer().unwrap().y, 0);
    app.diagram_control('s');
    let viewer = app.diagram_viewer().unwrap();
    assert_eq!((viewer.x, viewer.y), pan);
}

#[test]
fn diagram_explicit_layout_controls_recenter_selected_node() {
    let mut app = fixture();
    app.open_diagram();
    make_ready(&mut app);
    for (control, x, y) in [('c', 150, 60), ('d', 5, 5), ('a', 145, 40)] {
        let previous_pan = app.diagram_viewer().map(|viewer| (viewer.x, viewer.y)).unwrap();
        app.diagram_control(control);
        // A frame drawn while the new layout loads must not consume the
        // centring intent.
        let area = app.diagram_viewer().unwrap().area;
        app.set_diagram_area(area, 0);
        let loading = app.diagram_viewer().unwrap();
        assert!(loading.loading && loading.center_after_render);
        assert_eq!((loading.x, loading.y), previous_pan);
        let mut relocated = output("relocated");
        relocated.objects[1].bounds = rect(x, y, 10, 5);
        let done = completion_with(&app, request(&app), relocated);
        poll(&mut app, vec![done]);
        let viewer = app.diagram_viewer().unwrap();
        assert_eq!(ident(&viewer.selected), Some((ObjectKind::Node, "A".to_string())));
        assert!(
            x >= viewer.x && x + 10 <= viewer.x + viewer.area.width as usize,
            "{control} should keep the selected node horizontally visible"
        );
        assert!(
            y >= viewer.y && y + 5 <= viewer.y + viewer.area.height as usize,
            "{control} should keep the selected node vertically visible"
        );
    }
}

#[test]
fn diagram_overview_selects_and_centers_visible_ancestor_of_hidden_node() {
    let mut app = fixture();
    app.open_diagram();
    make_ready(&mut app);
    assert_eq!(selected(&app), Some((ObjectKind::Node, "A".to_string())));
    app.diagram_control('o');
    let area = app.diagram_viewer().unwrap().area;
    app.set_diagram_area(area, 0);
    assert!(app.diagram_viewer().unwrap().center_after_render);
    let mut overview = output("overview");
    overview.objects.retain(|object| object.id.kind == ObjectKind::Subgraph);
    overview.objects[0].bounds = rect(150, 50, 20, 10);
    let done = completion_with(&app, request(&app), overview);
    poll(&mut app, vec![done]);
    let viewer = app.diagram_viewer().unwrap();
    assert_eq!(ident(&viewer.selected), Some((ObjectKind::Subgraph, "G".to_string())));
    assert_eq!((viewer.x, viewer.y), (120, 42));
}

#[test]
fn diagram_resize_layout_preserves_pan_except_clamping() {
    let mut app = fixture();
    app.open_diagram();
    make_ready(&mut app);
    app.pan_diagram(100, 30);
    app.set_diagram_area(Rect { x: 0, y: 1, width: 90, height: 26 }, 0);
    app.diagrams.viewer.as_mut().unwrap().view.width = 90;
    app.request_diagram_render();
    let done = completion(&app, request(&app), "resized");
    poll(&mut app, vec![done]);
    let viewer = app.diagram_viewer().unwrap();
    assert_eq!((viewer.x, viewer.y), (100, 30));
}

#[test]
fn diagram_search_m_is_text_and_escape_cancels_before_closing() {
    let mut app = App::new(50_000);
    app.content_area = Rect { x: 0, y: 0, width: 80, height: 30 };
    app.set_diagrams(vec![DiagramBlockInfo {
        ordinal: 0,
        code_block_index: 0,
        source: "".into(),
        rendered_start: 0,
        rendered_end: 1,
        source_line: 1,
    }]);
    // Selection makes this fixture independent of document text visibility.
    app.code_select = Some(0);
    app.open_diagram();
    app.begin_diagram_search();
    app.handle_diagram_key(KeyCode::Char('m'), false);
    assert_eq!(app.diagram_viewer().unwrap().search.as_deref(), Some("m"));
    app.handle_diagram_key(KeyCode::Esc, false);
    assert!(app.is_diagram_open());
    assert!(!app.is_diagram_search());
    app.handle_diagram_key(KeyCode::Esc, false);
    assert!(!app.is_diagram_open());
}

#[test]
fn preview_origin_finds_a_node_below_and_right_of_an_empty_corner() {
    let preview = MermaidPreview {
        text: String::new(),
        width: 400,
        height: 41,
        warning: None,
        nodes: vec![rect(300, 36, 10, 3)],
        overview: false,
        hidden_nodes: 0,
    };
    let (x, y) = preview.preview_origin(76, 24);
    assert!(x <= 300 && x + 76 >= 310);
    assert!(y <= 36 && y + 24 >= 39);
    assert!(36 - y < 3, "do not spend most of the preview on blank rows");
}

#[test]
fn diagram_open_without_block_in_view_warns() {
    let mut app = fixture();
    app.scroll = 40;
    app.visible_end = 70;
    app.open_diagram();
    assert!(!app.is_diagram_open());
    assert_eq!(app.config_warning.as_deref(), Some("No Mermaid diagram in view"));
}

#[test]
fn diagram_oversized_source_opens_with_error_and_no_job() {
    let mut app = App::new(8);
    app.set_diagrams(vec![block(0, SOURCE)]);
    app.visible_end = 30;
    app.open_diagram();
    let viewer = app.diagram_viewer().unwrap();
    assert!(!viewer.loading);
    assert_eq!(
        viewer.error.as_deref(),
        Some("Mermaid source exceeds the input limit; s shows original source")
    );
    assert!(app.diagrams.actions.is_empty());
}

#[test]
fn diagram_copy_is_queued_and_reported() {
    let mut app = fixture();
    app.open_diagram();
    let before = app.diagrams.actions.len();
    app.diagram_control('y');
    assert_eq!(app.diagrams.actions.len(), before + 1);
    assert!(matches!(app.diagrams.actions.last(), Some(DiagramAction::CopySource(s)) if s == SOURCE));
    app.report_diagram_copy(true);
    assert_eq!(app.diagram_viewer().unwrap().feedback.as_deref(), Some("Original Mermaid copied"));
    app.report_diagram_copy(false);
    assert_eq!(
        app.diagram_viewer().unwrap().feedback.as_deref(),
        Some("Could not copy original Mermaid")
    );
}

#[test]
fn diagram_focus_refuses_groups_and_unknown_controls() {
    let mut app = fixture();
    app.open_diagram();
    make_ready(&mut app);
    app.select_next_diagram_object(true);
    assert_eq!(selected(&app), Some((ObjectKind::Subgraph, "G".to_string())));
    let request_before = app.diagrams.next_request;
    app.diagram_control('f');
    assert_eq!(
        app.diagram_viewer().unwrap().feedback.as_deref(),
        Some("Select an original node to focus; groups cannot be focus anchors")
    );
    assert_eq!(app.diagrams.next_request, request_before);
    app.diagram_control('z');
    assert_eq!(
        app.diagram_viewer().unwrap().feedback.as_deref(),
        Some("This control is unavailable for this diagram family (or while preparing)")
    );
    app.diagram_control(' ');
    let viewer = app.diagram_viewer().unwrap();
    assert!(viewer.view.collapsed.contains(&"G".to_string()));
    assert_eq!(app.diagrams.next_request, request_before + 1);
}

#[test]
fn diagram_click_selects_smallest_object_under_pointer() {
    let mut app = fixture();
    app.open_diagram();
    make_ready(&mut app);
    app.select_diagram_at(22, 12);
    assert_eq!(selected(&app), Some((ObjectKind::Node, "A".to_string())));
    app.select_diagram_at(60, 20);
    assert_eq!(selected(&app), Some((ObjectKind::Subgraph, "G".to_string())));
}

#[test]
fn diagram_search_moves_and_wraps_over_matches() {
    let mut app = fixture();
    app.open_diagram();
    make_ready(&mut app);
    app.begin_diagram_search();
    app.edit_diagram_search(Some('a'));
    // "a" matches Alpha and Beta.
    app.move_diagram_search(true);
    assert_eq!(app.diagram_viewer().unwrap().search_index, 1);
    app.move_diagram_search(false);
    assert_eq!(app.diagram_viewer().unwrap().search_index, 0);
    app.edit_diagram_search(None);
    assert_eq!(app.diagram_viewer().unwrap().search.as_deref(), Some(""));
    app.cancel_diagram_search();
    assert!(!app.is_diagram_search());
}

#[test]
fn diagram_resize_relayouts_after_quiet_period() {
    let mut app = fixture();
    app.open_diagram();
    make_ready(&mut app);
    app.set_diagram_area(Rect { x: 0, y: 1, width: 100, height: 26 }, 1_000);
    assert!(app.has_diagram_work(false));
    let request_before = app.diagrams.next_request;
    assert!(!app.finish_diagram_resize(1_100));
    assert!(app.finish_diagram_resize(1_120));
    assert_eq!(app.diagrams.next_request, request_before + 1);
    assert_eq!(app.diagram_viewer().unwrap().view.width, 100);
    assert!(!app.has_diagram_work(false));
}

#[test]
fn diagram_background_preview_is_scheduled_once_idle() {
    let mut app = fixture();
    assert!(!app.schedule_diagram_preview(true));
    assert!(app.schedule_diagram_preview(false));
    match app.diagrams.actions.last() {
        Some(DiagramAction::Submit(job)) => {
            assert!(job.view.is_none());
            assert_eq!(job.source, SOURCE);
        },
        _ => panic!("expected a preview job"),
    }
    app.cache_diagram_preview(SOURCE.to_string(), Err("bad".into()));
    assert!(!app.schedule_diagram_preview(false));
}

#[test]
fn pan_never_passes_the_limits() {
    let mut app = fixture();
    app.open_diagram();
    make_ready(&mut app);
    app.pan_diagram(isize::MAX, isize::MAX);
    let v = app.diagram_viewer().unwrap();
    let (lx, ly) = DiagramViewer::diagram_pan_limits(200, 70, v.area);
    assert_eq!((v.x, v.y), (lx, ly));
    app.pan_diagram(isize::MIN, isize::MIN);
    let v = app.diagram_viewer().unwrap();
    assert_eq!((v.x, v.y), (0, 0));
}

#[test]
fn diagram_mouse_wheel_pans_and_is_ignored_under_help() {
    let mut app = fixture();
    assert!(!app.handle_diagram_mouse(MouseAction::ScrollDown, 5, 5));
    assert_eq!(app.mouse_position, (5, 5));
    app.open_diagram();
    make_ready(&mut app);
    app.reset_diagram_pan();
    assert!(app.handle_diagram_mouse(MouseAction::ScrollDown, 5, 5));
    assert!(app.handle_diagram_mouse(MouseAction::ScrollRight, 5, 5));
    let v = app.diagram_viewer().unwrap();
    assert_eq!((v.x, v.y), (3, 3));
    assert!(app.handle_diagram_mouse(MouseAction::ScrollUp, 5, 5));
    assert_eq!(app.diagram_viewer().unwrap().y, 0);
    app.toggle_diagram_help();
    assert!(app.handle_diagram_mouse(MouseAction::ScrollLeft, 7, 9));
    assert_eq!(app.diagram_viewer().unwrap().x, 3);
    assert_eq!(app.mouse_position, (7, 9));
}

#[test]
fn diagram_mouse_click_selects_the_node_under_the_pointer() {
    let mut app = fixture();
    app.open_diagram();
    make_ready(&mut app);
    app.reset_diagram_pan();
    // Node A spans canvas cells x 20..30, y 10..15; the body starts at row 1.
    assert!(app.handle_diagram_mouse(MouseAction::LeftDown, 22, 12));
    assert_eq!(selected(&app), Some((ObjectKind::Node, "A".to_string())));
    assert!(app.handle_diagram_mouse(MouseAction::LeftDown, 60, 40));
    assert_eq!(selected(&app), Some((ObjectKind::Node, "A".to_string())));
}

#[test]
fn diagram_viewport_uses_cell_clipping_without_wrapping_and_small_sizes_are_safe() {
    let mut app = fixture();
    app.open_diagram();
    make_ready(&mut app);
    // An 80×30 terminal: title row 0, body rows 1..27, footer rows 27..30.
    let screen = app.diagram_frame(Rect { x: 0, y: 0, width: 80, height: 30 }, 0, "50/50/20").unwrap();
    assert_eq!(app.diagram_viewer().unwrap().area, Rect { x: 0, y: 1, width: 80, height: 26 });
    // Cells (0, 1) and (0, 2) are the first cell of the first two body rows.
    assert_eq!(screen.body[0].chars().next(), Some('r'));
    assert_eq!(screen.body[1].chars().next(), Some('r'));
    assert_eq!(screen.footer.len(), 3);
    assert_eq!(app.content_area, Rect { x: 0, y: 0, width: 80, height: 30 });
    let tiny = app.diagram_frame(Rect { x: 0, y: 0, width: 1, height: 1 }, 0, "50/50/20").unwrap();
    assert!(tiny.body.is_empty());
    assert!(tiny.title.chars().count() <= 1);
}

#[test]
fn diagram_frame_layout_rows() {
    let (t, b, f) = diagram_layout(Rect { x: 0, y: 0, width: 80, height: 30 });
    assert_eq!((t.y, t.height, b.y, b.height, f.y, f.height), (0, 1, 1, 26, 27, 3));
    let (t, b, f) = diagram_layout(Rect { x: 2, y: 5, width: 10, height: 2 });
    assert_eq!((t.height, b.height, f.height), (1, 0, 1));
    assert_eq!((b.y, f.y), (6, 6));
}

#[test]
fn tab_then_shift_tab_gives_back_the_selection() {
    let mut app = fixture();
    app.open_diagram();
    make_ready(&mut app);
    app.select_next_diagram_object(false);
    let first = selected(&app);
    assert!(first.is_some());
    let shown = summary(&app);
    app.select_next_diagram_object(false);
    assert_ne!(selected(&app), first);
    app.select_next_diagram_object(true);
    assert_eq!(selected(&app), first);
    assert_eq!(summary(&app), shown);
}
