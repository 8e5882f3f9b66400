use leaf_markdown::document::LineMapState;
use leaf_markdown::footnotes::FootnoteNumbers;
use leaf_markdown::notes::{DeferredDiagram, DocumentLines, FootnotesBuf, NoteDefinition, NotesContext};
use leaf_markdown::preview_cache::MermaidCache;

fn spans(texts: &[&str]) -> Vec<String> {
    texts.iter().map(|s| s.to_string()).collect()
}

#[test]
fn notes_follow_the_document_with_their_diagrams_in_place() {
    let mut numbers = FootnoteNumbers::new();
    numbers.register_reference(&"b".to_string());
    numbers.record_definition(&"a".to_string());
    numbers.record_definition(&"b".to_string());
    let mut buf = FootnotesBuf {
        numbers,
        definitions: vec![
            NoteDefinition {
                label: "a".into(),
                source_line: 10,
                lines: vec![spans(&["alpha text"])],
                link_urls: vec!["http://a".into()],
                diagrams: vec![],
            },
            NoteDefinition {
                label: "b".into(),
                source_line: 5,
                lines: vec![spans(&["beta"]), spans(&["diagram"]), vec![]],
                link_urls: vec![],
                diagrams: vec![DeferredDiagram {
                    source: "graph TD".into(),
                    source_line: 6,
                    placeholder: 1,
                    prefix: vec![],
                }],
            },
        ],
    };
    let mut map = LineMapState::new();
    map.push(true);
    let mut out = DocumentLines {
        lines: vec![spans(&["doc"])],
        map,
        link_urls: vec![],
        code_blocks: vec![],
        diagrams: vec![],
    };
    let cache = MermaidCache::new();
    let ctx = NotesContext {
        render_width: 60,
        code_line_numbers: false,
        complete: false,
        spacing: "50/50/20",
        previews: &cache,
        max_source_bytes: 50_000,
    };
    buf.flush_footnotes(&mut out, &ctx);
    assert_eq!(out.lines.len(), 12);
    assert_eq!(out.lines[1], vec!["─".repeat(60)]);
    assert_eq!(out.lines[3], spans(&["Notes"]));
    assert_eq!(out.lines[4], spans(&["─────"]));
    assert_eq!(out.lines[5], spans(&["¹ ", "beta"]));
    assert_eq!(out.lines[6][0], "  ");
    assert!(out.lines[6][1].starts_with("┌─ mermaid "));
    assert!(out.lines[7][1].contains("Loading diagram"));
    assert_eq!(out.lines[10], spans(&["² ", "alpha text"]));
    assert_eq!(out.lines[11], spans(&[""]));
    assert_eq!(out.link_urls, vec!["http://a".to_string()]);
    assert_eq!(out.diagrams.len(), 1);
    assert_eq!((out.diagrams[0].rendered_start, out.diagrams[0].rendered_end), (6, 9));
    assert_eq!(out.diagrams[0].source_line, 6);
    assert_eq!(out.code_blocks[0].raw_content, "graph TD");
    assert_eq!(out.map.source_line_map, vec![1, 1, 1, 1, 1, 5, 6, 6, 6, 6, 10, 10]);
    assert_eq!(out.map.line_number_map, (1..=12).collect::<Vec<usize>>());
    assert_eq!(out.map.current_src_line, 10);
    assert!(buf.definitions.is_empty());
    buf.flush_footnotes(&mut out, &ctx);
    assert_eq!(out.lines.len(), 12);
    assert_eq!(out.link_urls.len(), 1);
}

#[test]
fn no_definitions_no_section() {
    let mut buf = FootnotesBuf { numbers: FootnoteNumbers::new(), definitions: vec![] };
    let mut out = DocumentLines {
        lines: vec![],
        map: LineMapState::new(),
        link_urls: vec![],
        code_blocks: vec![],
        diagrams: vec![],
    };
    let cache = MermaidCache::new();
    let ctx = NotesContext {
        render_width: 60,
        code_line_numbers: false,
        complete: false,
        spacing: "",
        previews: &cache,
        max_source_bytes: 10,
    };
    buf.flush_footnotes(&mut out, &ctx);
    assert!(out.lines.is_empty());
}

#[test]
fn long_note_lines_wrap_behind_the_marker_indent() {
    let mut numbers = FootnoteNumbers::new();
    numbers.register_reference(&"n".to_string());
    let mut buf = FootnotesBuf {
        numbers,
        definitions: vec![NoteDefinition {
            label: "n".into(),
            source_line: 3,
            lines: vec![spans(&["abcdefghij"]), spans(&["k"])],
            link_urls: vec![],
            diagrams: vec![],
        }],
    };
    let mut out = DocumentLines {
        lines: vec![],
        map: LineMapState::new(),
        link_urls: vec![],
        code_blocks: vec![],
        diagrams: vec![],
    };
    let cache = MermaidCache::new();
    let ctx = NotesContext {
        render_width: 6,
        code_line_numbers: false,
        complete: false,
        spacing: "",
        previews: &cache,
        max_source_bytes: 10,
    };
    buf.flush_footnotes(&mut out, &ctx);
    // Marker "¹ " takes two cells; rows hold four.
    assert_eq!(out.lines[4], spans(&["¹ ", "abcd"]));
    assert_eq!(out.lines[5], spans(&["  ", "efgh"]));
    assert_eq!(out.lines[6], spans(&["  ", "ij"]));
    assert_eq!(out.lines[7], spans(&["  ", "k"]));
    assert_eq!(out.lines[0], vec!["─".repeat(8)]);
}
