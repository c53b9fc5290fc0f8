use pandagen::display::{DisplaySink, TestDisplaySink};
use pandagen::editor_render::{render_editor_optimized, EditorFrame, EditorRenderCache};
use pandagen::render_stats::RenderStatsGlobal;

#[test]
fn test_cache_initialization() {
    let mut cache = EditorRenderCache::new();
    assert!(!cache.valid);

    cache.ensure_size(80, 25);
    assert_eq!(cache.cols(), 80);
    assert_eq!(cache.rows(), 25);
    assert_eq!(cache.cell_count(), 80 * 25);
}

fn frame(lines: &[&str], status: &str, cursor: Option<(usize, usize)>) -> EditorFrame {
    EditorFrame {
        lines: lines.iter().map(|l| l.as_bytes().to_vec()).collect(),
        status: status.as_bytes().to_vec(),
        cursor,
        scroll_offset: 0,
    }
}

#[test]
fn first_render_draws_everything() {
    let mut sink = TestDisplaySink::new(20, 5);
    let mut cache = EditorRenderCache::new();
    let mut global = RenderStatsGlobal::new();
    let f = frame(&["hello", "world"], "-- NORMAL --", Some((0, 0)));
    let stats = render_editor_optimized(&mut sink, &f, &mut cache, 0x07, 0x0F, false, 100, &mut global);
    assert!(stats.full_clear);
    assert_eq!(stats.full_redraws, 1);
    assert_eq!(stats.flush_calls, 1);
    assert_eq!(stats.dirty_lines_count, 5);
    assert!(cache.is_valid());
    assert_eq!(sink.get_line(0), Some("hello".to_string()));
    assert_eq!(sink.get_line(1), Some("world".to_string()));
    assert_eq!(sink.get_line(2), Some(String::new()));
    assert_eq!(sink.get_line(4), Some("-- NORMAL --".to_string()));
    assert_eq!(sink.get_attr(0, 4), Some(0x0F));
    assert_eq!(sink.get_attr(0, 0), Some(0x07));
}

#[test]
fn unchanged_frame_redraws_no_line() {
    let mut sink = TestDisplaySink::new(20, 5);
    let mut cache = EditorRenderCache::new();
    let mut global = RenderStatsGlobal::new();
    let f = frame(&["hello"], "status", None);
    render_editor_optimized(&mut sink, &f, &mut cache, 0x07, 0x0F, false, 1, &mut global);
    let stats = render_editor_optimized(&mut sink, &f, &mut cache, 0x07, 0x0F, false, 2, &mut global);
    assert!(!stats.full_clear);
    assert_eq!(stats.full_redraws, 0);
    assert_eq!(stats.flush_calls, 0);
    assert_eq!(stats.dirty_lines_count, 0);
}

#[test]
fn changed_line_is_redrawn_incrementally() {
    let mut sink = TestDisplaySink::new(20, 5);
    let mut cache = EditorRenderCache::new();
    let mut global = RenderStatsGlobal::new();
    render_editor_optimized(&mut sink, &frame(&["hello", "world"], "s", None), &mut cache, 0x07, 0x0F, false, 1, &mut global);
    let stats = render_editor_optimized(&mut sink, &frame(&["help", "world"], "s", None), &mut cache, 0x07, 0x0F, false, 2, &mut global);
    assert!(!stats.full_clear);
    assert_eq!(stats.dirty_lines_count, 1);
    assert_eq!(sink.get_line(0), Some("help".to_string()));
    assert_eq!(sink.get_line(1), Some("world".to_string()));
}

#[test]
fn scrolling_or_invalidating_forces_full_redraw() {
    let mut sink = TestDisplaySink::new(10, 3);
    let mut cache = EditorRenderCache::new();
    let mut global = RenderStatsGlobal::new();
    let mut f = frame(&["a"], "s", None);
    render_editor_optimized(&mut sink, &f, &mut cache, 0x07, 0x0F, false, 1, &mut global);
    f.scroll_offset = 1;
    let stats = render_editor_optimized(&mut sink, &f, &mut cache, 0x07, 0x0F, false, 2, &mut global);
    assert!(stats.full_clear);
    cache.invalidate();
    assert!(!cache.is_valid());
    let stats = render_editor_optimized(&mut sink, &f, &mut cache, 0x07, 0x0F, false, 3, &mut global);
    assert!(stats.full_clear);
    let stats = render_editor_optimized(&mut sink, &f, &mut cache, 0x07, 0x0F, true, 4, &mut global);
    assert!(stats.full_clear);
}

#[test]
fn long_lines_are_cut_at_the_right_edge() {
    let mut sink = TestDisplaySink::new(4, 2);
    let mut cache = EditorRenderCache::new();
    let mut global = RenderStatsGlobal::new();
    render_editor_optimized(&mut sink, &frame(&["abcdefgh"], "status", None), &mut cache, 0x07, 0x0F, false, 1, &mut global);
    assert_eq!(sink.get_line(0), Some("abcd".to_string()));
    assert_eq!(sink.get_line(1), Some("stat".to_string()));
    assert_eq!(sink.dims(), (4, 2));
}

#[test]
fn display_matches_frame_after_each_pass() {
    let mut sink = TestDisplaySink::new(12, 4);
    let mut cache = EditorRenderCache::new();
    let mut global = RenderStatsGlobal::new();
    render_editor_optimized(&mut sink, &frame(&["abcdef", "xyz"], "st", Some((2, 0))), &mut cache, 0x07, 0x0F, false, 1, &mut global);
    render_editor_optimized(&mut sink, &frame(&["abc", "xyzzy", "q"], "st2", Some((1, 1))), &mut cache, 0x07, 0x0F, false, 2, &mut global);
    assert_eq!(sink.get_line(0), Some("abc".to_string()));
    assert_eq!(sink.get_line(1), Some("xyzzy".to_string()));
    assert_eq!(sink.get_line(2), Some("q".to_string()));
    assert_eq!(sink.get_line(3), Some("st2".to_string()));
    assert_eq!(sink.get_char(3, 0), Some(b' '));
    assert_eq!(sink.get_attr(3, 0), Some(0x07));
    assert_eq!(sink.get_attr(0, 3), Some(0x0F));
}

fn frame_of(lines: &[String], status: &str, cursor: (usize, usize)) -> EditorFrame {
    EditorFrame {
        lines: lines.iter().map(|l| l.as_bytes().to_vec()).collect(),
        status: status.as_bytes().to_vec(),
        cursor: Some(cursor),
        scroll_offset: 0,
    }
}

#[test]
fn test_incremental_vs_full_writes() {
    let mut sink = TestDisplaySink::new(80, 25);
    let mut cache = EditorRenderCache::new();
    let mut global = RenderStatsGlobal::new();
    let editor = frame_of(&[String::new()], "-- NORMAL --", (0, 0));

    let stats1 = render_editor_optimized(&mut sink, &editor, &mut cache, 0x07, 0x0F, false, 100, &mut global);
    assert!(stats1.full_clear);
    let writes_full = sink.write_count();
    sink.reset_write_count();

    let stats2 = render_editor_optimized(&mut sink, &editor, &mut cache, 0x07, 0x0F, false, 110, &mut global);
    assert!(!stats2.full_clear);
    let writes_incremental = sink.write_count();

    assert!(
        writes_incremental < writes_full / 10,
        "Incremental writes {} should be much less than full writes {}",
        writes_incremental,
        writes_full
    );
}

#[test]
fn test_cursor_only_change_minimal_writes() {
    let mut sink = TestDisplaySink::new(80, 25);
    let mut cache = EditorRenderCache::new();
    let mut global = RenderStatsGlobal::new();

    // Insert mode after typing "Hello".
    let typed = frame_of(&["Hello".to_string()], "-- INSERT --", (5, 0));
    let _ = render_editor_optimized(&mut sink, &typed, &mut cache, 0x07, 0x0F, false, 100, &mut global);
    sink.reset_write_count();

    // Escape: back to normal mode, the cursor one cell to the left.
    let normal = frame_of(&["Hello".to_string()], "-- NORMAL --", (4, 0));
    let stats = render_editor_optimized(&mut sink, &normal, &mut cache, 0x07, 0x0F, false, 110, &mut global);

    assert!(stats.cells_written < 200, "Cursor move should write few cells, got {}", stats.cells_written);
}

#[test]
fn test_typing_50_characters_performance() {
    let mut sink = TestDisplaySink::new(80, 25);
    let mut cache = EditorRenderCache::new();
    let mut global = RenderStatsGlobal::new();

    let _ = render_editor_optimized(&mut sink, &frame_of(&[String::new()], "-- NORMAL --", (0, 0)), &mut cache, 0x07, 0x0F, false, 0, &mut global);
    sink.reset_write_count();

    let _ = render_editor_optimized(&mut sink, &frame_of(&[String::new()], "-- INSERT --", (0, 0)), &mut cache, 0x07, 0x0F, false, 10, &mut global);
    sink.reset_write_count();

    let mut text = String::new();
    let mut total_writes = 0usize;
    for i in 0..50 {
        let ch = b'a' + (i % 26) as u8;
        text.push(ch as char);
        let f = frame_of(&[text.clone()], "-- INSERT --", (text.len(), 0));
        let _stats = render_editor_optimized(&mut sink, &f, &mut cache, 0x07, 0x0F, false, 20 + i as u64, &mut global);
        total_writes += sink.write_count();
        sink.reset_write_count();
    }

    let full_redraw_cost = 80 * 25 * 50;
    assert!(
        total_writes < full_redraw_cost / 10,
        "50 char typing should be <10% of full redraw cost. Got {} vs full {}",
        total_writes,
        full_redraw_cost
    );
    assert!(total_writes < 15000, "50 char typing should be under 15k writes, got {}", total_writes);
}

#[test]
fn test_hjkl_movement_performance() {
    let mut sink = TestDisplaySink::new(80, 25);
    let mut cache = EditorRenderCache::new();
    let mut global = RenderStatsGlobal::new();
    let lines = ["x".repeat(10), "y".repeat(10)];

    // Normal mode on the second line, after the last character typed.
    let mut cursor = (9usize, 1usize);
    let _ = render_editor_optimized(&mut sink, &frame_of(&lines, "-- NORMAL --", cursor), &mut cache, 0x07, 0x0F, false, 0, &mut global);
    sink.reset_write_count();

    let moves = [
        b'h', b'j', b'k', b'l', b'h', b'h', b'j', b'k', b'l', b'l', b'h', b'j', b'k', b'l', b'h', b'h', b'j', b'k',
        b'l', b'l',
    ];
    let mut total_writes = 0usize;
    for (idx, &movement) in moves.iter().enumerate() {
        cursor = match movement {
            b'h' => (cursor.0.saturating_sub(1), cursor.1),
            b'l' => ((cursor.0 + 1).min(9), cursor.1),
            b'j' => (cursor.0, (cursor.1 + 1).min(1)),
            _ => (cursor.0, cursor.1.saturating_sub(1)),
        };
        let _stats = render_editor_optimized(&mut sink, &frame_of(&lines, "-- NORMAL --", cursor), &mut cache, 0x07, 0x0F, false, 10 + idx as u64, &mut global);
        total_writes += sink.write_count();
        sink.reset_write_count();
    }

    let writes_per_move = total_writes / moves.len();
    assert!(writes_per_move < 100, "Cursor move should be under 100 writes, got {} per move", writes_per_move);
}
