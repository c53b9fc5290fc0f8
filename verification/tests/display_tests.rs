use pandagen::display::{DisplaySink, TestDisplaySink};

#[test]
fn test_display_sink_clear() {
    let mut sink = TestDisplaySink::new(80, 25);
    sink.clear(0x07);
    assert_eq!(sink.get_char(0, 0), Some(b' '));
    assert_eq!(sink.get_attr(0, 0), Some(0x07));
}

#[test]
fn test_display_sink_write_at() {
    let mut sink = TestDisplaySink::new(80, 25);
    sink.clear(0x07);
    assert!(sink.write_at(5, 3, b'A', 0x0F));
    assert_eq!(sink.get_char(5, 3), Some(b'A'));
    assert_eq!(sink.get_attr(5, 3), Some(0x0F));
}

#[test]
fn test_display_sink_write_str() {
    let mut sink = TestDisplaySink::new(80, 25);
    sink.clear(0x07);
    let written = sink.write_str_at(0, 0, "Hello", 0x0F);
    assert_eq!(written, 5);
    assert_eq!(sink.get_line(0), Some("Hello".to_string()));
}

#[test]
fn test_display_sink_bounds() {
    let mut sink = TestDisplaySink::new(80, 25);
    assert!(!sink.write_at(80, 0, b'X', 0x07)); // Out of bounds
    assert!(!sink.write_at(0, 25, b'X', 0x07)); // Out of bounds
}

#[test]
fn display_sink_write_str_wraps_at_right_edge() {
    let mut sink = TestDisplaySink::new(4, 3);
    sink.clear(0x07);
    let written = sink.write_str_at(2, 0, "abcdef", 0x0F);
    assert_eq!(written, 6);
    assert_eq!(sink.get_line(0), Some("ab".to_string()));
    assert_eq!(sink.get_line(1), Some("cdef".to_string()));
}

#[test]
fn display_sink_write_str_newline_and_bottom_stop() {
    let mut sink = TestDisplaySink::new(10, 2);
    sink.clear(0x07);
    let written = sink.write_str_at(0, 0, "ab\ncd\nef", 0x07);
    assert_eq!(written, 4);
    assert_eq!(sink.get_line(0), Some("ab".to_string()));
    assert_eq!(sink.get_line(1), Some("cd".to_string()));
    assert_eq!(sink.get_line(2), None);
}

#[test]
fn display_sink_dims_and_off_display_reads() {
    let sink = TestDisplaySink::new(80, 25);
    assert_eq!(sink.dims(), (80, 25));
    assert_eq!(sink.get_char(80, 0), None);
    assert_eq!(sink.get_attr(0, 25), None);
}

#[test]
fn display_sink_line_skips_leading_spaces() {
    let mut sink = TestDisplaySink::new(10, 1);
    sink.clear(0x07);
    sink.write_str_at(3, 0, "hi", 0x07);
    assert_eq!(sink.get_line(0), Some("hi".to_string()));
}
