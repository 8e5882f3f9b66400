use leaf_markdown::plain_output::write_lines_with_unwrapped;
use leaf_markdown::width::slice_display_columns;

#[test]
fn cell_slice_keeps_graphemes_and_partial_glyph_alignment() {
    let slice = slice_display_columns;
    assert_eq!(slice("Ae\u{301}界👩‍💻Z", 0, 7), "Ae\u{301}界👩‍💻Z");
    assert_eq!(slice("Ae\u{301}界👩‍💻Z", 3, 7), " 👩‍💻Z");
    assert_eq!(slice("A界Z", 0, 2), "A ");
    assert_eq!(slice("A\tZ", 2, 5), "  Z");
    assert_eq!(slice("abc", 20, 30), "");
    assert!(!slice("A\x1b[31mB", 0, 80).contains('\x1b'));
}

#[test]
fn full_writer_only_exempts_diagram_rows_and_does_not_split_emoji() {
    let lines = vec![
        "0123456789".to_string(),
        "👩‍💻👩‍💻👩‍💻".to_string(),
        "0123456789".to_string(),
    ];
    let output = write_lines_with_unwrapped(&lines, 4, &vec![(0, 0)]);
    assert_eq!(output, "0123456789\n👩‍💻👩‍💻\n👩‍💻\n0123\n4567\n89\n");
}

#[test]
fn plain_writer_keeps_empty_lines_and_wide_glyphs_alone() {
    let lines = vec![String::new(), "界".to_string(), "ab界".to_string()];
    let output = write_lines_with_unwrapped(&lines, 1, &vec![]);
    assert_eq!(output, "\n界\na\nb\n界\n");
}

#[test]
fn wrapped_rows_put_back_together_give_the_line() {
    let line = "界👩\u{200d}💻e\u{301}xyz 12345";
    for width in [1usize, 2, 3, 5, 80] {
        let text = write_lines_with_unwrapped(&vec![line.to_string()], width, &vec![]);
        assert_eq!(text.replace('\n', ""), line, "width {width}");
    }
}

#[test]
fn unwrapped_lines_keep_their_geometry_at_any_width() {
    let lines = vec!["0123456789".to_string(), "ab".to_string()];
    for width in [1usize, 3, 8] {
        assert_eq!(write_lines_with_unwrapped(&lines, width, &vec![(0, 1)]), "0123456789\nab\n");
    }
    assert_eq!(write_lines_with_unwrapped(&lines, 4, &vec![]), "0123\n4567\n89\nab\n");
}
