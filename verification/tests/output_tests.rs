use pandagen::output::BareMetalOutput;

#[test]
fn test_bare_metal_output_tracks_revision() {
    let mut output = BareMetalOutput::new();
    assert_eq!(output.last_revision(), None);

    // Simulate rendering
    assert!(output.render_text(&[], None, None, None, 1).is_some());
    assert_eq!(output.last_revision(), Some(1));

    output.reset();
    assert_eq!(output.last_revision(), None);
}

#[test]
fn same_revision_is_not_drawn_twice() {
    let mut output = BareMetalOutput::new();
    assert!(output.render_text(&["x"], None, None, None, 7).is_some());
    assert!(output.render_text(&["x"], None, None, None, 7).is_none());
    assert!(output.render_text(&["y"], None, None, None, 8).is_some());
}

#[test]
fn state_text_marks_cursor_and_status() {
    let mut output = BareMetalOutput::new();
    let text = output
        .render_text(&["ab", "cd"], Some(0), Some(1), Some("S"), 1)
        .unwrap();
    assert_eq!(
        text,
        "\r\n--- Editor State ---\na|b\ncd\n\n----------------------------------------\n\nS\n-------------------\n"
    );
}

#[test]
fn cursor_past_line_end_and_below_lines() {
    let mut output = BareMetalOutput::new();
    let text = output.render_text(&["ab"], Some(0), Some(5), None, 1).unwrap();
    assert!(text.contains("\nab|\n"));
    assert!(text.contains("(no status)"));
    let text = output.render_text(&["ab"], Some(2), Some(3), None, 2).unwrap();
    assert!(text.contains("\nab\n\n   |\n"));
}
