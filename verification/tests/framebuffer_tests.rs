use pandagen::display::DisplaySink;
use pandagen::editor_render::{render_editor_optimized, EditorFrame, EditorRenderCache};
use pandagen::framebuffer::{attr_to_rgb, vga_color, BareMetalFramebuffer, FramebufferInfo, PixelFormat};
use pandagen::render_stats::RenderStatsGlobal;

fn test_font() -> Vec<[u8; 16]> {
    let mut font = vec![[0u8; 16]; 128];
    // 'A': left and right pixel set on every scanline.
    font[b'A' as usize] = [0b1000_0001; 16];
    // '?': top scanline full.
    font[b'?' as usize][0] = 0xFF;
    // '_': bottom scanline full.
    font[b'_' as usize][15] = 0xFF;
    font
}

fn info(width: usize, height: usize, stride: usize) -> FramebufferInfo {
    FramebufferInfo { width, height, stride_pixels: stride, format: PixelFormat::Rgb32 }
}

fn pixel(fb: &BareMetalFramebuffer, x: usize, y: usize) -> [u8; 4] {
    let i = fb.info().offset(x, y);
    let p = fb.pixels();
    [p[i], p[i + 1], p[i + 2], p[i + 3]]
}

#[test]
fn pixel_format_and_geometry() {
    assert_eq!(PixelFormat::Rgb32.bytes_per_pixel(), 4);
    assert_eq!(PixelFormat::Rgb32.to_bytes(1, 2, 3), [3, 2, 1, 0]);
    let i = info(640, 480, 648);
    assert_eq!(i.offset(2, 1), 648 * 4 + 8);
    assert_eq!(i.buffer_size(), 480 * 648 * 4);
}

#[test]
fn geometry_from_video_mode() {
    assert_eq!(FramebufferInfo::from_mode(0, 480, 2560, 32), None);
    assert_eq!(FramebufferInfo::from_mode(640, 480, 2560, 0), None);
    let i = FramebufferInfo::from_mode(640, 480, 2600, 32).unwrap();
    assert_eq!(i.width, 640);
    assert_eq!(i.height, 480);
    assert_eq!(i.stride_pixels, 650);
}

#[test]
fn palette_and_attributes() {
    assert_eq!(vga_color(0), (0, 0, 0));
    assert_eq!(vga_color(1), (0, 0, 0xAA));
    assert_eq!(vga_color(14), (0xFF, 0xFF, 0x55));
    assert_eq!(vga_color(15), (0xFF, 0xFF, 0xFF));
    assert_eq!(vga_color(16), (0xAA, 0xAA, 0xAA));
    assert_eq!(attr_to_rgb(0x1F), ((0xFF, 0xFF, 0xFF), (0, 0, 0xAA)));
}

#[test]
fn text_grid_and_clear() {
    let mut fb = BareMetalFramebuffer::new(info(64, 48, 70), test_font());
    assert_eq!(fb.cols(), 8);
    assert_eq!(fb.rows(), 3);
    assert_eq!(fb.dims(), (8, 3));
    fb.clear(10, 20, 30);
    assert_eq!(pixel(&fb, 0, 0), [30, 20, 10, 0]);
    assert_eq!(pixel(&fb, 63, 47), [30, 20, 10, 0]);
    // Padding past the visible width stays untouched.
    assert_eq!(pixel(&fb, 64, 0), [0, 0, 0, 0]);
}

#[test]
fn clear_text_row_and_span() {
    let mut fb = BareMetalFramebuffer::new(info(64, 48, 64), test_font());
    fb.clear_text_row(1, (1, 2, 3));
    assert_eq!(pixel(&fb, 5, 16), [3, 2, 1, 0]);
    assert_eq!(pixel(&fb, 5, 31), [3, 2, 1, 0]);
    assert_eq!(pixel(&fb, 5, 15), [0, 0, 0, 0]);
    assert_eq!(pixel(&fb, 5, 32), [0, 0, 0, 0]);
    fb.clear_text_row(3, (9, 9, 9));
    assert_eq!(pixel(&fb, 0, 47), [0, 0, 0, 0]);

    fb.clear_text_span(6, 0, 10, (4, 5, 6));
    assert_eq!(pixel(&fb, 47, 0), [0, 0, 0, 0]);
    assert_eq!(pixel(&fb, 48, 0), [6, 5, 4, 0]);
    assert_eq!(pixel(&fb, 63, 15), [6, 5, 4, 0]);
    assert_eq!(pixel(&fb, 48, 16), [3, 2, 1, 0]);
}

#[test]
fn draw_char_uses_glyph_bits() {
    let mut fb = BareMetalFramebuffer::new(info(64, 48, 64), test_font());
    assert!(fb.draw_char_at(1, 1, b'A', (255, 255, 255), (0, 0, 0)));
    assert_eq!(pixel(&fb, 8, 16), [255, 255, 255, 0]);
    assert_eq!(pixel(&fb, 9, 16), [0, 0, 0, 0]);
    assert_eq!(pixel(&fb, 15, 31), [255, 255, 255, 0]);
    assert!(!fb.draw_char_at(8, 0, b'A', (255, 255, 255), (0, 0, 0)));
    assert!(!fb.draw_char_at(0, 3, b'A', (255, 255, 255), (0, 0, 0)));
    // Codes past ASCII draw the question mark.
    assert!(fb.draw_char_at(0, 0, 200, (1, 1, 1), (2, 2, 2)));
    assert_eq!(pixel(&fb, 3, 0), [1, 1, 1, 0]);
    assert_eq!(pixel(&fb, 3, 1), [2, 2, 2, 0]);
}

#[test]
fn draw_text_fast_and_wrapping() {
    let mut fb = BareMetalFramebuffer::new(info(64, 48, 64), test_font());
    // Four or more bytes without newline: cut at the right edge.
    assert_eq!(fb.draw_text_at(5, 0, "AAAAAA", (255, 0, 0), (0, 0, 0)), 3);
    assert_eq!(pixel(&fb, 40, 0), [0, 0, 255, 0]);
    // Short text goes through the wrapping walk.
    assert_eq!(fb.draw_text_at(7, 0, "AA", (0, 255, 0), (0, 0, 0)), 2);
    assert_eq!(pixel(&fb, 0, 16), [0, 255, 0, 0]);
    // A newline moves to the next row; drawing stops below the last row.
    assert_eq!(fb.draw_text_at(0, 2, "A\nA", (0, 0, 255), (0, 0, 0)), 1);
}

#[test]
fn draw_line_fills_rest_of_row() {
    let mut fb = BareMetalFramebuffer::new(info(64, 48, 64), test_font());
    fb.draw_line(0, "A", (255, 255, 255), (1, 2, 3));
    assert_eq!(pixel(&fb, 0, 0), [255, 255, 255, 0]);
    assert_eq!(pixel(&fb, 1, 0), [3, 2, 1, 0]);
    assert_eq!(pixel(&fb, 63, 15), [3, 2, 1, 0]);
    assert_eq!(pixel(&fb, 63, 16), [0, 0, 0, 0]);
}

#[test]
fn scroll_moves_rows_up() {
    let mut fb = BareMetalFramebuffer::new(info(16, 48, 16), test_font());
    fb.clear_text_row(1, (7, 7, 7));
    fb.scroll_up_text_lines(1, (9, 9, 9));
    assert_eq!(pixel(&fb, 0, 0), [7, 7, 7, 0]);
    assert_eq!(pixel(&fb, 0, 16), [0, 0, 0, 0]);
    assert_eq!(pixel(&fb, 0, 32), [9, 9, 9, 0]);
    fb.scroll_up_text_lines(5, (1, 1, 1));
    assert_eq!(pixel(&fb, 0, 0), [1, 1, 1, 0]);
}

#[test]
fn blit_copies_into_pixels() {
    let mut fb = BareMetalFramebuffer::new(info(2, 1, 2), test_font());
    fb.blit_from(&[1, 2, 3]);
    assert_eq!(fb.pixels(), &[1, 2, 3, 0, 0, 0, 0, 0]);
}

#[test]
fn editor_renders_onto_framebuffer() {
    let mut fb = BareMetalFramebuffer::new(info(64, 48, 64), test_font());
    let mut cache = EditorRenderCache::new();
    let mut global = RenderStatsGlobal::new();
    let frame = EditorFrame {
        lines: vec![b"A".to_vec()],
        status: b"AA".to_vec(),
        cursor: Some((2, 0)),
        scroll_offset: 0,
    };
    let stats = render_editor_optimized(&mut fb, &frame, &mut cache, 0x0F, 0x1F, false, 0, &mut global);
    assert!(stats.full_clear);
    // 'A' in white on black at the first cell.
    assert_eq!(pixel(&fb, 0, 0), [0xFF, 0xFF, 0xFF, 0]);
    assert_eq!(pixel(&fb, 1, 0), [0, 0, 0, 0]);
    // Status row background is blue.
    assert_eq!(pixel(&fb, 1, 32), [0xAA, 0, 0, 0]);
    // Cursor underscore at cell (2, 0).
    assert_eq!(pixel(&fb, 17, 15), [0xFF, 0xFF, 0xFF, 0]);
}
