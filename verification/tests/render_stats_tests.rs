use pandagen::render_stats::{
    frame_begin, frame_end, get_cumulative_stats, record_char_draw, record_line_clear,
    record_pixel_writes, reset_stats, RenderStatsGlobal,
};

#[test]
fn test_render_stats_frame_tracking() {
    let mut stats = RenderStatsGlobal::new();
    reset_stats(&mut stats);

    // Simulate a frame
    frame_begin(&mut stats, 100);
    record_char_draw(&mut stats);
    record_char_draw(&mut stats);
    record_pixel_writes(&mut stats, 256); // 2 chars × 128 pixels
    record_line_clear(&mut stats);
    let frame = frame_end(&mut stats, 105);

    assert_eq!(frame.char_draws, 2);
    assert_eq!(frame.pixel_writes, 256);
    assert_eq!(frame.line_clears, 1);
    assert_eq!(frame.frame_ticks, 5);
}

#[test]
fn test_cumulative_stats() {
    let mut stats = RenderStatsGlobal::new();
    reset_stats(&mut stats);

    // Frame 1
    frame_begin(&mut stats, 0);
    record_char_draw(&mut stats);
    frame_end(&mut stats, 10);

    // Frame 2
    frame_begin(&mut stats, 10);
    record_char_draw(&mut stats);
    record_char_draw(&mut stats);
    frame_end(&mut stats, 25);

    let cumulative = get_cumulative_stats(&stats);
    assert_eq!(cumulative.frame_count, 2);
}

#[test]
fn test_cumulative_min_max_avg() {
    let mut stats = RenderStatsGlobal::new();
    frame_begin(&mut stats, 0);
    frame_end(&mut stats, 10);
    frame_begin(&mut stats, 10);
    frame_end(&mut stats, 25);
    let cumulative = get_cumulative_stats(&stats);
    assert_eq!(cumulative.min_frame_ticks, 10);
    assert_eq!(cumulative.max_frame_ticks, 15);
    assert_eq!(cumulative.avg_frame_ticks, 12);
}

#[test]
fn cumulative_totals_span_frames() {
    let mut stats = RenderStatsGlobal::new();
    frame_begin(&mut stats, 0);
    record_char_draw(&mut stats);
    record_pixel_writes(&mut stats, 128);
    frame_end(&mut stats, 10);
    frame_begin(&mut stats, 10);
    record_char_draw(&mut stats);
    record_char_draw(&mut stats);
    record_pixel_writes(&mut stats, 256);
    frame_end(&mut stats, 25);
    let cumulative = get_cumulative_stats(&stats);
    assert_eq!(cumulative.total_char_draws, 3);
    assert_eq!(cumulative.total_pixel_writes, 384);
    reset_stats(&mut stats);
    assert_eq!(get_cumulative_stats(&stats).total_char_draws, 0);
}
