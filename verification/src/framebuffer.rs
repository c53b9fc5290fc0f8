//! A pixel framebuffer that shows text in 8x16 character cells: fills,
//! clears, scrolling, glyph drawing with a small glyph cache, and a display
//! sink over it.
//!
//! The pixels are 32-bit (blue, green, red, unused) in rows of
//! `stride_pixels` pixels. The framebuffer owns its pixel bytes; copying
//! them to video memory is left to the caller (`pixels`).

use vstd::prelude::*;
use vstd::string::StringSliceAdditionalSpecFns;
use crate::display::{span_writes, DisplaySink, SinkWrite};

verus! {

/// Character cell width in pixels.
pub const FONT_WIDTH: usize = 8;

/// Character cell height in pixels.
pub const FONT_HEIGHT: usize = 16;

/// Number of glyphs in a font (the ASCII range).
pub const GLYPH_COUNT: usize = 128;

/// Bytes of one scanline of a drawn glyph: eight 4-byte pixels.
pub const GLYPH_ROW_BYTES: usize = 32;

/// Pixel format of the framebuffer.
#[derive(Debug, Clone, Copy, PartialEq, Eq, Structural)]
pub enum PixelFormat {
    /// 32-bit pixels, bytes blue, green, red, unused.
    Rgb32,
}

impl PixelFormat {
    /// Bytes per pixel.
    pub fn bytes_per_pixel(&self) -> (r: usize)
        ensures
            r == 4,
    {
        match self {
            PixelFormat::Rgb32 => 4,
        }
    }

    /// The bytes of a color in this format.
    pub fn to_bytes(self, r: u8, g: u8, b: u8) -> (c: [u8; 4])
        ensures
            c@ == seq![b, g, r, 0u8],
    {
        match self {
            PixelFormat::Rgb32 => [b, g, r, 0],
        }
    }
}

/// Geometry of a framebuffer.
#[derive(Debug, Clone, Copy, PartialEq, Eq, Structural)]
pub struct FramebufferInfo {
    /// Width in pixels.
    pub width: usize,
    /// Height in pixels.
    pub height: usize,
    /// Pixels per row in memory (at least the width).
    pub stride_pixels: usize,
    /// Pixel format.
    pub format: PixelFormat,
}

impl FramebufferInfo {
    /// The byte offset of a pixel.
    pub open spec fn offset_spec(&self, x: int, y: int) -> int {
        y * self.stride_pixels * 4 + x * 4
    }

    /// The size of the pixel memory in bytes.
    pub open spec fn size_spec(&self) -> int {
        self.height * self.stride_pixels * 4
    }

    /// The byte offset of a pixel.
    pub fn offset(&self, x: usize, y: usize) -> (r: usize)
        requires
            self.offset_spec(x as int, y as int) <= usize::MAX,
        ensures
            r == self.offset_spec(x as int, y as int),
    {
        assert(0 <= y * self.stride_pixels * 4) by (nonlinear_arith);
        assert(y * self.stride_pixels * 4 <= self.offset_spec(x as int, y as int));
        assert(0 <= y * self.stride_pixels) by (nonlinear_arith);
        assert(y * self.stride_pixels <= y * self.stride_pixels * 4) by (nonlinear_arith)
            requires
                0 <= y * self.stride_pixels,
        ;
        y * self.stride_pixels * self.format.bytes_per_pixel() + x * self.format.bytes_per_pixel()
    }

    /// The size of the pixel memory in bytes.
    pub fn buffer_size(&self) -> (r: usize)
        requires
            self.size_spec() <= usize::MAX,
        ensures
            r == self.size_spec(),
    {
        assert(0 <= self.height * self.stride_pixels) by (nonlinear_arith);
        assert(self.height * self.stride_pixels <= self.height * self.stride_pixels * 4) by (nonlinear_arith)
            requires
                0 <= self.height * self.stride_pixels,
        ;
        self.height * self.stride_pixels * self.format.bytes_per_pixel()
    }

    /// The geometry of a video mode reported at boot: none when any of its
    /// dimensions is zero; the stride is the pitch in whole pixels.
    pub fn from_mode(width: u64, height: u64, pitch: u64, bpp: u16) -> (r: Option<FramebufferInfo>)
        ensures
            (width == 0 || height == 0 || pitch == 0 || bpp == 0) ==> r is None,
            !(width == 0 || height == 0 || pitch == 0 || bpp == 0) ==> r == Some(
                FramebufferInfo {
                    width: width as usize,
                    height: height as usize,
                    stride_pixels: (pitch as usize) / 4,
                    format: PixelFormat::Rgb32,
                },
            ),
    {
        if width == 0 || height == 0 || pitch == 0 || bpp == 0 {
            return None;
        }
        let format = PixelFormat::Rgb32;
        Some(
            FramebufferInfo {
                width: width as usize,
                height: height as usize,
                stride_pixels: pitch as usize / format.bytes_per_pixel(),
                format,
            },
        )
    }
}

/// The standard 16-color text palette.
pub open spec fn vga_palette(idx: u8) -> (u8, u8, u8) {
    if idx == 0 {
        (0x00, 0x00, 0x00)
    } else if idx == 1 {
        (0x00, 0x00, 0xAA)
    } else if idx == 2 {
        (0x00, 0xAA, 0x00)
    } else if idx == 3 {
        (0x00, 0xAA, 0xAA)
    } else if idx == 4 {
        (0xAA, 0x00, 0x00)
    } else if idx == 5 {
        (0xAA, 0x00, 0xAA)
    } else if idx == 6 {
        (0xAA, 0x55, 0x00)
    } else if idx == 7 {
        (0xAA, 0xAA, 0xAA)
    } else if idx == 8 {
        (0x55, 0x55, 0x55)
    } else if idx == 9 {
        (0x55, 0x55, 0xFF)
    } else if idx == 10 {
        (0x55, 0xFF, 0x55)
    } else if idx == 11 {
        (0x55, 0xFF, 0xFF)
    } else if idx == 12 {
        (0xFF, 0x55, 0x55)
    } else if idx == 13 {
        (0xFF, 0x55, 0xFF)
    } else if idx == 14 {
        (0xFF, 0xFF, 0x55)
    } else if idx == 15 {
        (0xFF, 0xFF, 0xFF)
    } else {
        (0xAA, 0xAA, 0xAA)
    }
}

/// The RGB color of a palette index; light gray past the palette.
pub fn vga_color(idx: u8) -> (r: (u8, u8, u8))
    ensures
        r == vga_palette(idx),
{
    match idx {
        0 => (0x00, 0x00, 0x00),
        1 => (0x00, 0x00, 0xAA),
        2 => (0x00, 0xAA, 0x00),
        3 => (0x00, 0xAA, 0xAA),
        4 => (0xAA, 0x00, 0x00),
        5 => (0xAA, 0x00, 0xAA),
        6 => (0xAA, 0x55, 0x00),
        7 => (0xAA, 0xAA, 0xAA),
        8 => (0x55, 0x55, 0x55),
        9 => (0x55, 0x55, 0xFF),
        10 => (0x55, 0xFF, 0x55),
        11 => (0x55, 0xFF, 0xFF),
        12 => (0xFF, 0x55, 0x55),
        13 => (0xFF, 0x55, 0xFF),
        14 => (0xFF, 0xFF, 0x55),
        15 => (0xFF, 0xFF, 0xFF),
        _ => (0xAA, 0xAA, 0xAA),
    }
}

/// The foreground and background colors of a text attribute: its low and
/// high four bits as palette indices.
pub fn attr_to_rgb(attr: u8) -> (r: ((u8, u8, u8), (u8, u8, u8)))
    ensures
        r == (vga_palette(attr & 0x0F), vga_palette((attr >> 4u8) & 0x0F)),
{
    let fg_idx = attr & 0x0F;
    let bg_idx = (attr >> 4u8) & 0x0F;
    (vga_color(fg_idx), vga_color(bg_idx))
}

/// `n` bytes repeating a pixel's four bytes.
pub open spec fn pattern(color: Seq<u8>, n: nat) -> Seq<u8> {
    Seq::new(n, |i: int| color[i % 4])
}

/// A row with the bytes put in from `start` on.
pub open spec fn put_seg(row: Seq<u8>, start: int, bytes: Seq<u8>) -> Seq<u8> {
    Seq::new(row.len(), |c: int| if start <= c < start + bytes.len() { bytes[c - start] } else { row[c] })
}

/// The pixel memory cut into rows of `stride_bytes` bytes.
pub open spec fn rows_of(buf: Seq<u8>, stride_bytes: nat, height: nat) -> Seq<Seq<u8>> {
    Seq::new(height, |y: int| buf.subrange(y * stride_bytes, y * stride_bytes + stride_bytes))
}

/// A row lies inside the pixel memory.
proof fn lemma_row_in_memory(stride_bytes: nat, height: nat, y: int)
    requires
        0 <= y < height,
    ensures
        0 <= y * stride_bytes,
        y * stride_bytes + stride_bytes <= height * stride_bytes,
{
    assert(0 <= y * stride_bytes) by (nonlinear_arith)
        requires
            0 <= y,
    ;
    assert(y * stride_bytes + stride_bytes <= height * stride_bytes) by (nonlinear_arith)
        requires
            0 <= y < height,
    ;
}

/// The rows of a framebuffer's geometry fill its pixel memory.
proof fn lemma_geometry(height: nat, stride: nat, y: int)
    requires
        0 <= y < height,
    ensures
        height * (stride * 4) == height * stride * 4,
        stride * 4 <= height * stride * 4,
        0 <= y * (stride * 4),
        y * (stride * 4) + stride * 4 <= height * stride * 4,
{
    assert(height * (stride * 4) == height * stride * 4) by (nonlinear_arith);
    lemma_row_in_memory(stride * 4, height, y);
}

/// Rows do not overlap.
proof fn lemma_rows_apart(stride_bytes: nat, y1: int, y2: int)
    requires
        0 <= y1 < y2,
    ensures
        y1 * stride_bytes + stride_bytes <= y2 * stride_bytes,
{
    assert(y1 * stride_bytes + stride_bytes <= y2 * stride_bytes) by (nonlinear_arith)
        requires
            0 <= y1 < y2,
    ;
}

/// The glyph drawn for a character code: the code's own below 128, `?`
/// otherwise.
pub open spec fn glyph_index(ch: u8) -> int {
    if ch < 128 {
        ch as int
    } else {
        0x3F
    }
}

/// A scanline of a glyph drawn in two colors: eight pixels, left to right
/// from the most significant bit, in the foreground color where the bit is
/// set and in the background color elsewhere.
pub open spec fn glyph_row(bits: u8, fg: Seq<u8>, bg: Seq<u8>) -> Seq<u8> {
    Seq::new(
        GLYPH_ROW_BYTES as nat,
        |j: int| if (bits >> ((7 - j / 4) as u8)) & 1u8 == 1u8 {
            fg[j % 4]
        } else {
            bg[j % 4]
        },
    )
}

/// A glyph drawn in two colors: its sixteen scanlines one after another.
pub open spec fn glyph_pixels(bitmap: [u8; 16], fg: Seq<u8>, bg: Seq<u8>) -> Seq<u8> {
    Seq::new(
        (FONT_HEIGHT * GLYPH_ROW_BYTES) as nat,
        |k: int| glyph_row(bitmap@[k / 32], fg, bg)[k % 32],
    )
}

/// Whether two colors are the same.
fn same_color(a: [u8; 4], b: [u8; 4]) -> (r: bool)
    ensures
        r == (a@ == b@),
{
    let r = a[0] == b[0] && a[1] == b[1] && a[2] == b[2] && a[3] == b[3];
    if r {
        assert(a@ =~= b@);
    } else {
        assert(a@ != b@) by {
            if a@ == b@ {
                assert(a@[0] == b@[0] && a@[1] == b@[1] && a@[2] == b@[2] && a@[3] == b@[3]);
            }
        }
    }
    r
}

/// Draws a scanline of a glyph in two colors.
fn render_glyph_row(bits: u8, fg: [u8; 4], bg: [u8; 4]) -> (r: Vec<u8>)
    ensures
        r@ == glyph_row(bits, fg@, bg@),
{
    let mut out: Vec<u8> = Vec::new();
    let mut b: u8 = 0;
    while b < 8
        invariant
            b <= 8,
            out@.len() == b * 4,
            forall|k: int| 0 <= k < out@.len() ==> #[trigger] out@[k] == glyph_row(bits, fg@, bg@)[k],
        decreases 8 - b,
    {
        let bit = (bits >> (7 - b)) & 1u8;
        let px = if bit == 1u8 {
            fg
        } else {
            bg
        };
        let ghost base = out@.len() as int;
        out.push(px[0]);
        out.push(px[1]);
        out.push(px[2]);
        out.push(px[3]);
        proof {
            assert forall|t: int| 0 <= t < 4 implies #[trigger] out@[base + t] == glyph_row(bits, fg@, bg@)[base + t] by {
                assert((b * 4 + t) / 4 == b);
                assert((b * 4 + t) % 4 == t);
            }
        }
        b = b + 1;
    }
    assert(out@ =~= glyph_row(bits, fg@, bg@));
    out
}

/// Draws a glyph in two colors.
fn render_glyph(bitmap: [u8; 16], fg: [u8; 4], bg: [u8; 4]) -> (r: Vec<u8>)
    ensures
        r@ == glyph_pixels(bitmap, fg@, bg@),
{
    let mut out: Vec<u8> = Vec::new();
    let mut s: usize = 0;
    while s < FONT_HEIGHT
        invariant
            s <= FONT_HEIGHT,
            out@.len() == s * 32,
            forall|k: int| 0 <= k < out@.len() ==> #[trigger] out@[k] == glyph_pixels(bitmap, fg@, bg@)[k],
        decreases FONT_HEIGHT - s,
    {
        let bits = bitmap[s];
        let mut b: u8 = 0;
        while b < 8
            invariant
                s < FONT_HEIGHT,
                bits == bitmap@[s as int],
                b <= 8,
                out@.len() == s * 32 + b * 4,
                forall|k: int| 0 <= k < out@.len() ==> #[trigger] out@[k] == glyph_pixels(bitmap, fg@, bg@)[k],
            decreases 8 - b,
        {
            let bit = (bits >> (7 - b)) & 1u8;
            let px = if bit == 1u8 {
                fg
            } else {
                bg
            };
            let ghost base = out@.len() as int;
            out.push(px[0]);
            out.push(px[1]);
            out.push(px[2]);
            out.push(px[3]);
            proof {
                assert forall|t: int| 0 <= t < 4 implies #[trigger] out@[base + t] == glyph_pixels(bitmap, fg@, bg@)[base + t] by {
                    assert((base + t) / 32 == s);
                    assert((base + t) % 32 == b * 4 + t);
                    assert((b * 4 + t) / 4 == b);
                    assert((b * 4 + t) % 4 == t);
                }
            }
            b = b + 1;
        }
        s = s + 1;
    }
    assert(out@ =~= glyph_pixels(bitmap, fg@, bg@));
    out
}

/// A cached glyph: its pixels, once drawn.
struct GlyphEntry {
    ready: bool,
    pixels: Vec<u8>,
}

/// Glyphs drawn in one pair of colors.
struct GlyphCacheSlot {
    fg: [u8; 4],
    bg: [u8; 4],
    glyphs: Vec<GlyphEntry>,
    last_used: u64,
    valid: bool,
}

impl GlyphCacheSlot {
    /// An empty, unused slot.
    fn new() -> (r: Self)
        ensures
            !r.valid,
            r.glyphs@.len() == 0,
            r.fg@ == seq![0u8, 0u8, 0u8, 0u8],
            r.bg@ == seq![0u8, 0u8, 0u8, 0u8],
            r.last_used == 0,
    {
        let r = GlyphCacheSlot { fg: [0u8, 0u8, 0u8, 0u8], bg: [0u8, 0u8, 0u8, 0u8], glyphs: Vec::new(), last_used: 0, valid: false };
        assert(r.fg@ =~= seq![0u8, 0u8, 0u8, 0u8]);
        assert(r.bg@ =~= seq![0u8, 0u8, 0u8, 0u8]);
        r
    }

    /// Every glyph drawn is the font's glyph in the slot's colors.
    spec fn holds(&self, font: Seq<[u8; 16]>) -> bool {
        &&& self.glyphs@.len() <= GLYPH_COUNT
        &&& forall|i: int|
            0 <= i < self.glyphs@.len() && (#[trigger] self.glyphs@[i]).ready ==> self.glyphs@[i].pixels@
                == glyph_pixels(font[i], self.fg@, self.bg@)
    }

    /// Whether the slot holds glyphs in these colors.
    fn matches(&self, fg: [u8; 4], bg: [u8; 4]) -> (r: bool)
        ensures
            r == (self.valid && self.fg@ == fg@ && self.bg@ == bg@),
    {
        self.valid && same_color(self.fg, fg) && same_color(self.bg, bg)
    }

    /// The glyph of a font entry in the slot's colors, drawn and kept on
    /// first use.
    fn glyph(&mut self, font: &Vec<[u8; 16]>, idx: usize) -> (r: Vec<u8>)
        requires
            old(self).holds(font@),
            font@.len() == GLYPH_COUNT,
            idx < GLYPH_COUNT,
        ensures
            final(self).holds(font@),
            final(self).fg == old(self).fg,
            final(self).bg == old(self).bg,
            final(self).valid == old(self).valid,
            final(self).last_used == old(self).last_used,
            r@ == glyph_pixels(font@[idx as int], old(self).fg@, old(self).bg@),
    {
        while self.glyphs.len() <= idx
            invariant
                self.holds(font@),
                self.fg == old(self).fg,
                self.bg == old(self).bg,
                self.valid == old(self).valid,
                self.last_used == old(self).last_used,
                font@.len() == GLYPH_COUNT,
                idx < GLYPH_COUNT,
            decreases GLYPH_COUNT - self.glyphs@.len(),
        {
            self.glyphs.push(GlyphEntry { ready: false, pixels: Vec::new() });
        }
        if !self.glyphs[idx].ready {
            let pixels = render_glyph(font[idx], self.fg, self.bg);
            self.glyphs[idx] = GlyphEntry { ready: true, pixels };
        }
        let entry = &self.glyphs[idx];
        let mut out: Vec<u8> = Vec::new();
        let mut k: usize = 0;
        while k < entry.pixels.len()
            invariant
                k <= entry.pixels@.len(),
                out@ == entry.pixels@.take(k as int),
            decreases entry.pixels@.len() - k,
        {
            out.push(entry.pixels[k]);
            assert(out@ =~= entry.pixels@.take(k + 1));
            k = k + 1;
        }
        assert(entry.pixels@.take(entry.pixels@.len() as int) =~= entry.pixels@);
        out
    }
}

/// A two-slot cache of drawn glyphs, one slot per pair of colors, the
/// least recently used slot giving way to new colors.
struct GlyphCache {
    slot0: GlyphCacheSlot,
    slot1: GlyphCacheSlot,
    clock: u64,
}

impl GlyphCache {
    /// An empty cache.
    fn new() -> (r: Self)
        ensures
            forall|font: Seq<[u8; 16]>| r.holds(font),
    {
        GlyphCache { slot0: GlyphCacheSlot::new(), slot1: GlyphCacheSlot::new(), clock: 0 }
    }

    /// Every glyph cached is the font's glyph in its slot's colors.
    spec fn holds(&self, font: Seq<[u8; 16]>) -> bool {
        self.slot0.holds(font) && self.slot1.holds(font)
    }

    /// The glyph of a character in two colors: from the slot for those
    /// colors, or drawn into the least recently used slot.
    fn glyph_for(&mut self, font: &Vec<[u8; 16]>, ch: u8, fg: [u8; 4], bg: [u8; 4]) -> (r: Vec<u8>)
        requires
            old(self).holds(font@),
            font@.len() == GLYPH_COUNT,
        ensures
            final(self).holds(font@),
            r@ == glyph_pixels(font@[glyph_index(ch)], fg@, bg@),
    {
        let idx: usize = if ch < 128 {
            ch as usize
        } else {
            0x3F
        };
        let use_first = if self.slot0.matches(fg, bg) {
            true
        } else if self.slot1.matches(fg, bg) {
            false
        } else {
            self.slot0.last_used <= self.slot1.last_used
        };
        let clock = self.clock;
        self.clock = self.clock.saturating_add(1);
        if use_first {
            prepare_slot(&mut self.slot0, fg, bg, clock);
            self.slot0.glyph(font, idx)
        } else {
            prepare_slot(&mut self.slot1, fg, bg, clock);
            self.slot1.glyph(font, idx)
        }
    }
}

/// Points a slot at two colors, emptying it when they differ from its own,
/// and marks it used at a time.
fn prepare_slot(slot: &mut GlyphCacheSlot, fg: [u8; 4], bg: [u8; 4], clock: u64)
    requires
        old(slot).glyphs@.len() <= GLYPH_COUNT,
    ensures
        final(slot).fg@ == fg@,
        final(slot).bg@ == bg@,
        final(slot).valid,
        final(slot).last_used == clock,
        forall|font: Seq<[u8; 16]>| old(slot).holds(font) ==> final(slot).holds(font),
{
    if !slot.valid || !same_color(slot.fg, fg) || !same_color(slot.bg, bg) {
        slot.fg = fg;
        slot.bg = bg;
        slot.glyphs = Vec::new();
        slot.valid = true;
    }
    slot.last_used = clock;
}

/// A framebuffer that shows text in character cells.
pub struct BareMetalFramebuffer {
    info: FramebufferInfo,
    buffer: Vec<u8>,
    font: Vec<[u8; 16]>,
    glyph_cache: Option<GlyphCache>,
    writes: Ghost<Seq<SinkWrite>>,
}

impl BareMetalFramebuffer {
    /// The framebuffer's geometry.
    pub closed spec fn info_view(&self) -> FramebufferInfo {
        self.info
    }

    /// The pixel bytes.
    pub closed spec fn pixels_view(&self) -> Seq<u8> {
        self.buffer@
    }

    /// The font: sixteen rows of eight bits for each character code.
    pub closed spec fn font_view(&self) -> Seq<[u8; 16]> {
        self.font@
    }

    /// The pixel memory, to change in place. Whether the framebuffer is
    /// still well formed afterwards is not stated: what the caller does
    /// with the slice is outside this contract.
    pub fn buffer_mut(&mut self) -> (r: &mut [u8])
        ensures
            r@ == old(self).pixels_view(),
            final(self).pixels_view() == final(r)@,
            final(self).info_view() == old(self).info_view(),
            final(self).font_view() == old(self).font_view(),
    {
        self.buffer.as_mut_slice()
    }

    /// Bytes per row of pixels in memory.
    pub open spec fn stride_bytes(&self) -> nat {
        (self.info_view().stride_pixels * 4) as nat
    }

    /// The pixel bytes, row by row.
    pub open spec fn rows_view(&self) -> Seq<Seq<u8>> {
        rows_of(self.pixels_view(), self.stride_bytes(), self.info_view().height as nat)
    }

    /// Columns of text.
    pub open spec fn cols_spec(&self) -> nat {
        (self.info_view().width / FONT_WIDTH) as nat
    }

    /// Rows of text.
    pub open spec fn text_rows_spec(&self) -> nat {
        (self.info_view().height / FONT_HEIGHT) as nat
    }

    /// The pixel memory matches the geometry, rows are at least as wide as
    /// the screen, and the font has a glyph for each ASCII code.
    pub closed spec fn wf(&self) -> bool {
        &&& self.info.size_spec() <= usize::MAX
        &&& self.buffer@.len() == self.info.size_spec()
        &&& self.info.width <= self.info.stride_pixels
        &&& self.font@.len() == GLYPH_COUNT
        &&& match self.glyph_cache {
            Some(cache) => cache.holds(self.font@),
            None => true,
        }
    }

    /// A framebuffer of the given geometry with all pixel bytes zero.
    pub fn new(info: FramebufferInfo, font: Vec<[u8; 16]>) -> (r: Self)
        requires
            info.size_spec() <= usize::MAX,
            info.width <= info.stride_pixels,
            font@.len() == GLYPH_COUNT,
        ensures
            r.wf(),
            r.info_view() == info,
            r.font_view() == font@,
            r.pixels_view() == Seq::new(info.size_spec() as nat, |i: int| 0u8),
    {
        let n = info.buffer_size();
        let mut buffer: Vec<u8> = Vec::new();
        let mut i: usize = 0;
        while i < n
            invariant
                i <= n,
                buffer@ == Seq::new(i as nat, |k: int| 0u8),
            decreases n - i,
        {
            buffer.push(0u8);
            assert(buffer@ =~= Seq::new((i + 1) as nat, |k: int| 0u8));
            i = i + 1;
        }
        BareMetalFramebuffer { info, buffer, font, glyph_cache: None, writes: Ghost(Seq::empty()) }
    }

    /// Columns of text.
    pub fn cols(&self) -> (r: usize)
        ensures
            r == self.cols_spec(),
    {
        self.info.width / FONT_WIDTH
    }

    /// Rows of text.
    pub fn rows(&self) -> (r: usize)
        ensures
            r == self.text_rows_spec(),
    {
        self.info.height / FONT_HEIGHT
    }

    /// The framebuffer's geometry.
    pub fn info(&self) -> (r: FramebufferInfo)
        ensures
            r == self.info_view(),
    {
        self.info
    }

    /// The pixel bytes.
    pub fn pixels(&self) -> (r: &[u8])
        ensures
            r@ == self.pixels_view(),
    {
        self.buffer.as_slice()
    }

    /// Copies bytes into the pixel memory from its start, as many as fit.
    pub fn blit_from(&mut self, src: &[u8])
        requires
            old(self).wf(),
        ensures
            final(self).wf(),
            final(self).info_view() == old(self).info_view(),
            final(self).font_view() == old(self).font_view(),
            final(self).pixels_view() == Seq::new(
                old(self).pixels_view().len(),
                |k: int| if k < src@.len() {
                    src@[k]
                } else {
                    old(self).pixels_view()[k]
                },
            ),
    {
        let len = if src.len() < self.buffer.len() {
            src.len()
        } else {
            self.buffer.len()
        };
        let mut i: usize = 0;
        while i < len
            invariant
                self.wf(),
                self.info == old(self).info,
                self.font@ == old(self).font@,
                len <= src@.len(),
                len <= self.buffer@.len(),
                i <= len,
                self.buffer@.len() == old(self).buffer@.len(),
                forall|k: int| 0 <= k < self.buffer@.len() ==> #[trigger] self.buffer@[k] == if k < i {
                    src@[k]
                } else {
                    old(self).buffer@[k]
                },
            decreases len - i,
        {
            self.buffer[i] = src[i];
            i = i + 1;
        }
        assert(self.buffer@ =~= Seq::new(
            old(self).buffer@.len(),
            |k: int| if k < src@.len() {
                src@[k]
            } else {
                old(self).buffer@[k]
            },
        ));
    }

    /// Fills `n` bytes of a pixel row from byte `start` on with a color.
    fn fill_bytes(&mut self, y: usize, start: usize, n: usize, color: [u8; 4])
        requires
            old(self).wf(),
            y < old(self).info_view().height,
            start + n <= old(self).stride_bytes(),
        ensures
            final(self).wf(),
            final(self).info_view() == old(self).info_view(),
            final(self).font_view() == old(self).font_view(),
            final(self).rows_view() == old(self).rows_view().update(
                y as int,
                put_seg(old(self).rows_view()[y as int], start as int, pattern(color@, n as nat)),
            ),
    {
        let ghost sb = self.stride_bytes();
        let ghost h = self.info.height as nat;
        proof {
            lemma_geometry(h, self.info.stride_pixels as nat, y as int);
        }
        let stride_bytes = self.info.stride_pixels * 4;
        let base = y * stride_bytes + start;
        let mut i: usize = 0;
        while i < n
            invariant
                self.wf(),
                self.info == old(self).info,
                self.font@ == old(self).font@,
                sb == stride_bytes,
                h == self.info.height,
                y < h,
                base == y * sb + start,
                start + n <= sb,
                y * sb + sb <= self.buffer@.len(),
                i <= n,
                self.buffer@.len() == old(self).buffer@.len(),
                forall|k: int| 0 <= k < self.buffer@.len() ==> #[trigger] self.buffer@[k] == if base <= k < base + i {
                    color@[(k - base) % 4]
                } else {
                    old(self).buffer@[k]
                },
            decreases n - i,
        {
            self.buffer[base + i] = color[i % 4];
            i = i + 1;
        }
        proof {
            let old_rows = rows_of(old(self).buffer@, sb, h);
            let expected = old_rows.update(
                y as int,
                put_seg(old_rows[y as int], start as int, pattern(color@, n as nat)),
            );
            assert forall|r: int| 0 <= r < h implies #[trigger] rows_of(self.buffer@, sb, h)[r] =~= expected[r] by {
                lemma_row_in_memory(sb, h, r);
                if r < y {
                    lemma_rows_apart(sb, r, y as int);
                } else if r > y {
                    lemma_rows_apart(sb, y as int, r);
                }
            }
            assert(rows_of(self.buffer@, sb, h) =~= expected);
        }
    }

    /// Puts `n` bytes taken from `from` on into a pixel row from byte
    /// `start` on.
    fn put_bytes(&mut self, y: usize, start: usize, bytes: &Vec<u8>, from: usize, n: usize)
        requires
            old(self).wf(),
            y < old(self).info_view().height,
            start + n <= old(self).stride_bytes(),
            from + n <= bytes@.len(),
        ensures
            final(self).wf(),
            final(self).info_view() == old(self).info_view(),
            final(self).font_view() == old(self).font_view(),
            final(self).rows_view() == old(self).rows_view().update(
                y as int,
                put_seg(old(self).rows_view()[y as int], start as int, bytes@.subrange(from as int, from + n)),
            ),
    {
        let ghost sb = self.stride_bytes();
        let ghost h = self.info.height as nat;
        proof {
            lemma_geometry(h, self.info.stride_pixels as nat, y as int);
        }
        let stride_bytes = self.info.stride_pixels * 4;
        let base = y * stride_bytes + start;
        let blen = bytes.len();
        let mut i: usize = 0;
        while i < n
            invariant
                self.wf(),
                self.info == old(self).info,
                self.font@ == old(self).font@,
                self.glyph_cache == old(self).glyph_cache,
                blen == bytes@.len(),
                sb == stride_bytes,
                h == self.info.height,
                y < h,
                base == y * sb + start,
                start + n <= sb,
                from + n <= bytes@.len(),
                y * sb + sb <= self.buffer@.len(),
                i <= n,
                self.buffer@.len() == old(self).buffer@.len(),
                forall|k: int| 0 <= k < self.buffer@.len() ==> #[trigger] self.buffer@[k] == if base <= k < base + i {
                    bytes@[from + (k - base)]
                } else {
                    old(self).buffer@[k]
                },
            decreases n - i,
        {
            self.buffer[base + i] = bytes[from + i];
            i = i + 1;
        }
        proof {
            let old_rows = rows_of(old(self).buffer@, sb, h);
            let expected = old_rows.update(
                y as int,
                put_seg(old_rows[y as int], start as int, bytes@.subrange(from as int, from + n)),
            );
            assert forall|r: int| 0 <= r < h implies #[trigger] rows_of(self.buffer@, sb, h)[r] =~= expected[r] by {
                lemma_row_in_memory(sb, h, r);
                if r < y {
                    lemma_rows_apart(sb, r, y as int);
                } else if r > y {
                    lemma_rows_apart(sb, y as int, r);
                }
            }
            assert(rows_of(self.buffer@, sb, h) =~= expected);
        }
    }

    /// The glyph of a character in two colors, through the glyph cache.
    fn cached_glyph(&mut self, ch: u8, fg: [u8; 4], bg: [u8; 4]) -> (r: Vec<u8>)
        requires
            old(self).wf(),
        ensures
            final(self).wf(),
            final(self).info_view() == old(self).info_view(),
            final(self).font_view() == old(self).font_view(),
            final(self).pixels_view() == old(self).pixels_view(),
            r@ == glyph_pixels(old(self).font_view()[glyph_index(ch)], fg@, bg@),
    {
        let mut cache = match self.glyph_cache.take() {
            Some(c) => c,
            None => GlyphCache::new(),
        };
        let glyph = cache.glyph_for(&self.font, ch, fg, bg);
        self.glyph_cache = Some(cache);
        glyph
    }

    /// Draws a character in a cell in two colors; false, drawing nothing,
    /// for a cell off the screen.
    pub fn draw_char_at(&mut self, col: usize, row: usize, ch: u8, fg: (u8, u8, u8), bg: (u8, u8, u8)) -> (r: bool)
        requires
            old(self).wf(),
        ensures
            final(self).wf(),
            final(self).info_view() == old(self).info_view(),
            final(self).font_view() == old(self).font_view(),
            r == (col < old(self).cols_spec() && row < old(self).text_rows_spec()),
            !r ==> final(self).rows_view() == old(self).rows_view(),
            r ==> final(self).rows_view() == draw_glyph(
                old(self).rows_view(),
                col as int,
                row as int,
                glyph_pixels(
                    old(self).font_view()[glyph_index(ch)],
                    seq![fg.2, fg.1, fg.0, 0u8],
                    seq![bg.2, bg.1, bg.0, 0u8],
                ),
            ),
    {
        if col >= self.cols() || row >= self.rows() {
            return false;
        }
        let fg_bytes = self.info.format.to_bytes(fg.0, fg.1, fg.2);
        let bg_bytes = self.info.format.to_bytes(bg.0, bg.1, bg.2);
        let glyph = self.cached_glyph(ch, fg_bytes, bg_bytes);
        let ghost start_rows = self.rows_view();
        proof {
            lemma_geometry(self.info.height as nat, self.info.stride_pixels as nat, 0);
        }
        let x_start = col * FONT_WIDTH * 4;
        let y_start = row * FONT_HEIGHT;
        let mut s: usize = 0;
        while s < FONT_HEIGHT
            invariant
                self.wf(),
                self.info == old(self).info,
                self.font@ == old(self).font@,
                col < self.cols_spec(),
                row < self.text_rows_spec(),
                x_start == col * 32,
                y_start == row * 16,
                glyph@.len() == FONT_HEIGHT * GLYPH_ROW_BYTES,
                s <= FONT_HEIGHT,
                start_rows == old(self).rows_view(),
                self.rows_view() == Seq::new(
                    start_rows.len(),
                    |y: int| if y_start <= y < y_start + s {
                        put_seg(start_rows[y], x_start as int, glyph@.subrange((y - y_start) * 32, (y - y_start) * 32 + 32))
                    } else {
                        start_rows[y]
                    },
                ),
            decreases FONT_HEIGHT - s,
        {
            let y = y_start + s;
            proof {
                lemma_geometry(self.info.height as nat, self.info.stride_pixels as nat, 0);
            }
            let ghost before = self.rows_view();
            self.put_bytes(y, x_start, &glyph, s * GLYPH_ROW_BYTES, GLYPH_ROW_BYTES);
            assert(self.rows_view() =~= Seq::new(
                start_rows.len(),
                |yy: int| if y_start <= yy < y_start + s + 1 {
                    put_seg(start_rows[yy], x_start as int, glyph@.subrange((yy - y_start) * 32, (yy - y_start) * 32 + 32))
                } else {
                    start_rows[yy]
                },
            ));
            s = s + 1;
        }
        assert(self.rows_view() =~= draw_glyph(
            old(self).rows_view(),
            col as int,
            row as int,
            glyph@,
        ));
        true
    }

    /// Draws the cursor in a cell: an underscore in two colors.
    pub fn draw_cursor(&mut self, col: usize, row: usize, fg: (u8, u8, u8), bg: (u8, u8, u8))
        requires
            old(self).wf(),
        ensures
            final(self).wf(),
            final(self).info_view() == old(self).info_view(),
            final(self).font_view() == old(self).font_view(),
            !(col < old(self).cols_spec() && row < old(self).text_rows_spec()) ==> final(self).rows_view()
                == old(self).rows_view(),
            (col < old(self).cols_spec() && row < old(self).text_rows_spec()) ==> final(self).rows_view()
                == draw_glyph(
                old(self).rows_view(),
                col as int,
                row as int,
                glyph_pixels(
                    old(self).font_view()[glyph_index(95u8)],
                    seq![fg.2, fg.1, fg.0, 0u8],
                    seq![bg.2, bg.1, bg.0, 0u8],
                ),
            ),
    {
        self.draw_char_at(col, row, 95u8, fg, bg);
    }

    /// Draws text from a cell on: a newline moves to the start of the next
    /// text row, text wraps at the right edge, and drawing stops below the
    /// last row. Returns the number of characters drawn.
    fn draw_text_at_slow(&mut self, col: usize, row: usize, text: &str, fg: (u8, u8, u8), bg: (u8, u8, u8)) -> (r: usize)
        requires
            old(self).wf(),
            row < usize::MAX,
        ensures
            final(self).wf(),
            final(self).info_view() == old(self).info_view(),
            final(self).font_view() == old(self).font_view(),
            ({
                let walk = text_draw(
                    old(self).cols_spec(),
                    old(self).text_rows_spec(),
                    old(self).font_view(),
                    seq![fg.2, fg.1, fg.0, 0u8],
                    seq![bg.2, bg.1, bg.0, 0u8],
                    TextDraw { col: col as int, row: row as int, drawn: 0, rows: old(self).rows_view(), stopped: false },
                    text.spec_bytes(),
                );
                &&& r == walk.drawn
                &&& final(self).rows_view() == walk.rows
            }),
    {
        let bytes = text.as_bytes();
        let ghost cols = self.cols_spec();
        let ghost trows = self.text_rows_spec();
        let ghost font = self.font@;
        let ghost fgc = seq![fg.2, fg.1, fg.0, 0u8];
        let ghost bgc = seq![bg.2, bg.1, bg.0, 0u8];
        let ghost start = TextDraw { col: col as int, row: row as int, drawn: 0, rows: self.rows_view(), stopped: false };
        let ncols = self.cols();
        let nrows = self.rows();
        let mut c = col;
        let mut rw = row;
        let mut drawn: usize = 0;
        let mut i: usize = 0;
        assert(bytes@.take(0) =~= Seq::<u8>::empty());
        assert(bytes@.take(bytes@.len() as int) =~= bytes@);
        while i < bytes.len()
            invariant_except_break
                ({
                    let s = text_draw(cols, trows, font, fgc, bgc, start, bytes@.take(i as int));
                    &&& !s.stopped
                    &&& s.col == c
                    &&& s.row == rw
                    &&& s.drawn == drawn
                    &&& s.rows == self.rows_view()
                }),
                rw < usize::MAX,
            invariant
                self.wf(),
                self.info == old(self).info,
                self.font@ == font,
                font == old(self).font@,
                cols == ncols,
                trows == nrows,
                cols == self.cols_spec(),
                trows == self.text_rows_spec(),
                fgc == seq![fg.2, fg.1, fg.0, 0u8],
                bgc == seq![bg.2, bg.1, bg.0, 0u8],
                i <= bytes@.len(),
                bytes@.take(bytes@.len() as int) == bytes@,
                drawn <= i,
            ensures
                ({
                    let s = text_draw(cols, trows, font, fgc, bgc, start, bytes@);
                    &&& s.drawn == drawn
                    &&& s.rows == self.rows_view()
                }),
            decreases bytes.len() - i,
        {
            let b = bytes[i];
            let ghost prev = text_draw(cols, trows, font, fgc, bgc, start, bytes@.take(i as int));
            proof {
                assert(bytes@.take(i + 1).drop_last() =~= bytes@.take(i as int));
                assert(bytes@.take(i + 1).last() == b);
            }
            if b == 10u8 {
                rw = rw + 1;
                c = 0;
                if rw >= nrows {
                    proof {
                        lemma_text_draw_stays(cols, trows, font, fgc, bgc, start, bytes@, i + 1, bytes@.len() as int);
                    }
                    break;
                }
            } else {
                if c >= ncols {
                    c = 0;
                    rw = rw + 1;
                }
                if rw >= nrows {
                    proof {
                        lemma_text_draw_stays(cols, trows, font, fgc, bgc, start, bytes@, i + 1, bytes@.len() as int);
                    }
                    break;
                }
                if self.draw_char_at(c, rw, b, fg, bg) {
                    drawn = drawn + 1;
                }
                c = c + 1;
            }
            i = i + 1;
        }
        drawn
    }

    /// Draws text from a cell on. Text of four or more bytes with no
    /// newline is drawn along the row, cut at the right edge, and nothing
    /// is drawn from a cell off the screen; other text goes through the
    /// wrapping walk of `draw_text_at_slow`. Returns the number of
    /// characters drawn.
    pub fn draw_text_at(&mut self, col: usize, row: usize, text: &str, fg: (u8, u8, u8), bg: (u8, u8, u8)) -> (r: usize)
        requires
            old(self).wf(),
            row < usize::MAX,
        ensures
            final(self).wf(),
            final(self).info_view() == old(self).info_view(),
            final(self).font_view() == old(self).font_view(),
            (r as nat, final(self).rows_view()) == text_drawn(
                old(self).rows_view(),
                old(self).cols_spec(),
                old(self).text_rows_spec(),
                old(self).font_view(),
                col as int,
                row as int,
                text.spec_bytes(),
                seq![fg.2, fg.1, fg.0, 0u8],
                seq![bg.2, bg.1, bg.0, 0u8],
            ),
    {
        let bytes = text.as_bytes();
        let mut has_newline = false;
        let mut k: usize = 0;
        while k < bytes.len()
            invariant
                k <= bytes@.len(),
                has_newline == bytes@.take(k as int).contains(10u8),
            decreases bytes@.len() - k,
        {
            let ghost t = bytes@.take(k as int);
            let ghost t2 = bytes@.take(k + 1);
            assert(t2 =~= t.push(bytes@[k as int]));
            proof {
                if t.contains(10u8) {
                    let w = choose|w: int| 0 <= w < t.len() && t[w] == 10u8;
                    assert(t2[w] == 10u8);
                }
                if bytes@[k as int] == 10u8 {
                    assert(t2[k as int] == 10u8);
                } else if t2.contains(10u8) {
                    let w = choose|w: int| 0 <= w < t2.len() && t2[w] == 10u8;
                    assert(t[w] == 10u8);
                }
            }
            if bytes[k] == 10u8 {
                has_newline = true;
            }
            k = k + 1;
        }
        assert(bytes@.take(bytes@.len() as int) =~= bytes@);
        if bytes.len() < 4 || has_newline {
            return self.draw_text_at_slow(col, row, text, fg, bg);
        }
        if row >= self.rows() || col >= self.cols() {
            return 0;
        }
        let room = self.cols() - col;
        let max_chars = if bytes.len() < room {
            bytes.len()
        } else {
            room
        };
        let ghost start_rows = self.rows_view();
        let ghost fgc = seq![fg.2, fg.1, fg.0, 0u8];
        let ghost bgc = seq![bg.2, bg.1, bg.0, 0u8];
        let mut i: usize = 0;
        assert(bytes@.take(0) =~= Seq::<u8>::empty());
        while i < max_chars
            invariant
                self.wf(),
                self.info == old(self).info,
                self.font@ == old(self).font@,
                col + max_chars <= self.cols_spec(),
                row < self.text_rows_spec(),
                max_chars <= bytes@.len(),
                i <= max_chars,
                start_rows == old(self).rows_view(),
                fgc == seq![fg.2, fg.1, fg.0, 0u8],
                bgc == seq![bg.2, bg.1, bg.0, 0u8],
                self.rows_view() == draw_chars(start_rows, self.font@, col as int, row as int, bytes@.take(i as int), fgc, bgc),
            decreases max_chars - i,
        {
            self.draw_char_at(col + i, row, bytes[i], fg, bg);
            assert(bytes@.take(i + 1).drop_last() =~= bytes@.take(i as int));
            assert(bytes@.take(i + 1).last() == bytes@[i as int]);
            i = i + 1;
        }
        max_chars
    }

    /// Draws a whole text row in one pass: the text, cut at the right edge,
    /// then the background color to the right edge. Nothing for a row off
    /// the screen.
    pub fn draw_line(&mut self, row: usize, text: &str, fg: (u8, u8, u8), bg: (u8, u8, u8))
        requires
            old(self).wf(),
        ensures
            final(self).wf(),
            final(self).info_view() == old(self).info_view(),
            final(self).font_view() == old(self).font_view(),
            row >= old(self).text_rows_spec() ==> final(self).rows_view() == old(self).rows_view(),
            row < old(self).text_rows_spec() ==> final(self).rows_view() == ({
                let bytes = text.spec_bytes();
                let cols = old(self).cols_spec();
                let n = if bytes.len() < cols {
                    bytes.len()
                } else {
                    cols
                };
                let fgc = seq![fg.2, fg.1, fg.0, 0u8];
                let bgc = seq![bg.2, bg.1, bg.0, 0u8];
                let w4 = (old(self).info_view().width * 4) as nat;
                let rows = old(self).rows_view();
                Seq::new(
                    rows.len(),
                    |y: int| if row * 16 <= y < row * 16 + 16 {
                        put_seg(
                            rows[y],
                            0,
                            line_scan(old(self).font_view(), bytes.take(n as int), y - row * 16, fgc, bgc)
                                + pattern(bgc, (w4 - n * 32) as nat),
                        )
                    } else {
                        rows[y]
                    },
                )
            }),
    {
        if row >= self.rows() {
            return;
        }
        let fg_bytes = self.info.format.to_bytes(fg.0, fg.1, fg.2);
        let bg_bytes = self.info.format.to_bytes(bg.0, bg.1, bg.2);
        let bytes = text.as_bytes();
        let cols = self.cols();
        let text_len = if bytes.len() < cols {
            bytes.len()
        } else {
            cols
        };
        proof {
            lemma_geometry(self.info.height as nat, self.info.stride_pixels as nat, 0);
        }
        let w4 = self.info.width * 4;
        let rest = w4 - text_len * 32;
        let y_start = row * FONT_HEIGHT;
        let ghost start_rows = self.rows_view();
        let ghost fgc = fg_bytes@;
        let ghost bgc = bg_bytes@;
        let mut s: usize = 0;
        while s < FONT_HEIGHT
            invariant
                self.wf(),
                self.info == old(self).info,
                self.font@ == old(self).font@,
                row < self.text_rows_spec(),
                cols == self.cols_spec(),
                text_len <= bytes@.len(),
                text_len <= cols,
                text_len == bytes@.len() || text_len == cols,
                w4 == self.info.width * 4,
                rest == w4 - text_len * 32,
                y_start == row * 16,
                s <= FONT_HEIGHT,
                start_rows == old(self).rows_view(),
                fgc == fg_bytes@,
                bgc == bg_bytes@,
                self.rows_view() == Seq::new(
                    start_rows.len(),
                    |y: int| if y_start <= y < y_start + s {
                        put_seg(
                            start_rows[y],
                            0,
                            line_scan(self.font@, bytes@.take(text_len as int), y - y_start, fgc, bgc)
                                + pattern(bgc, rest as nat),
                        )
                    } else {
                        start_rows[y]
                    },
                ),
            decreases FONT_HEIGHT - s,
        {
            let mut scan: Vec<u8> = Vec::new();
            let mut i: usize = 0;
            assert(bytes@.take(0) =~= Seq::<u8>::empty());
            while i < text_len
                invariant
                    self.font@.len() == GLYPH_COUNT,
                    s < FONT_HEIGHT,
                    i <= text_len,
                    text_len <= bytes@.len(),
                    scan@ == line_scan(self.font@, bytes@.take(i as int), s as int, fgc, bgc),
                    fgc == fg_bytes@,
                    bgc == bg_bytes@,
                decreases text_len - i,
            {
                let ch = bytes[i];
                let gi: usize = if ch < 128 {
                    ch as usize
                } else {
                    0x3F
                };
                let bits = self.font[gi][s];
                let piece = render_glyph_row(bits, fg_bytes, bg_bytes);
                let mut j: usize = 0;
                let ghost before = scan@;
                while j < GLYPH_ROW_BYTES
                    invariant
                        j <= GLYPH_ROW_BYTES,
                        piece@.len() == GLYPH_ROW_BYTES,
                        scan@ == before + piece@.take(j as int),
                    decreases GLYPH_ROW_BYTES - j,
                {
                    scan.push(piece[j]);
                    assert(piece@.take(j + 1) =~= piece@.take(j as int).push(piece@[j as int]));
                    j = j + 1;
                }
                assert(piece@.take(32) =~= piece@);
                assert(bytes@.take(i + 1).drop_last() =~= bytes@.take(i as int));
                assert(bytes@.take(i + 1).last() == ch);
                i = i + 1;
            }
            let ghost text_part = scan@;
            let mut j: usize = 0;
            while j < rest
                invariant
                    j <= rest,
                    scan@ == text_part + pattern(bgc, j as nat),
                    bgc == bg_bytes@,
                decreases rest - j,
            {
                scan.push(bg_bytes[j % 4]);
                assert(pattern(bgc, (j + 1) as nat) =~= pattern(bgc, j as nat).push(bgc[(j % 4) as int]));
                j = j + 1;
            }
            proof {
                assert(scan@.len() == w4) by {
                    lemma_line_scan_len(self.font@, bytes@.take(text_len as int), s as int, fgc, bgc);
                }
            }
            let y = y_start + s;
            let n = scan.len();
            self.put_bytes(y, 0, &scan, 0, n);
            assert(scan@.subrange(0, n as int) =~= scan@);
            assert(self.rows_view() =~= Seq::new(
                start_rows.len(),
                |yy: int| if y_start <= yy < y_start + s + 1 {
                    put_seg(
                        start_rows[yy],
                        0,
                        line_scan(self.font@, bytes@.take(text_len as int), yy - y_start, fgc, bgc)
                            + pattern(bgc, rest as nat),
                    )
                } else {
                    start_rows[yy]
                },
            ));
            s = s + 1;
        }
    }

    /// Fills `n` bytes from byte `start` on in each pixel row from `y0` up
    /// to `y1` with a color.
    fn fill_rect(&mut self, y0: usize, y1: usize, start: usize, n: usize, color: [u8; 4])
        requires
            old(self).wf(),
            y1 <= old(self).info_view().height,
            start + n <= old(self).stride_bytes(),
        ensures
            final(self).wf(),
            final(self).info_view() == old(self).info_view(),
            final(self).font_view() == old(self).font_view(),
            final(self).rows_view() == fill_rows(old(self).rows_view(), y0 as int, y1 as int, start as int, n as nat, color@),
    {
        let mut y = y0;
        assert(self.rows_view() =~= fill_rows(
            old(self).rows_view(),
            y0 as int,
            if y < y1 {
                y as int
            } else {
                y1 as int
            },
            start as int,
            n as nat,
            color@,
        ));
        while y < y1
            invariant
                self.wf(),
                self.info == old(self).info,
                self.font@ == old(self).font@,
                y1 <= self.info.height,
                start + n <= self.stride_bytes(),
                y0 <= y,
                self.rows_view() == fill_rows(
                    old(self).rows_view(),
                    y0 as int,
                    if y < y1 {
                        y as int
                    } else {
                        y1 as int
                    },
                    start as int,
                    n as nat,
                    color@,
                ),
            decreases y1 - y,
        {
            let ghost before = self.rows_view();
            self.fill_bytes(y, start, n, color);
            assert(before[y as int] == old(self).rows_view()[y as int]);
            assert(self.rows_view() =~= fill_rows(old(self).rows_view(), y0 as int, (y + 1) as int, start as int, n as nat, color@));
            y = y + 1;
        }
        assert(self.rows_view() =~= fill_rows(old(self).rows_view(), y0 as int, y1 as int, start as int, n as nat, color@));
    }

    /// Fills the visible pixels of a row with a color; nothing below the
    /// screen.
    fn fill_pixel_row(&mut self, y: usize, color: [u8; 4])
        requires
            old(self).wf(),
        ensures
            final(self).wf(),
            final(self).info_view() == old(self).info_view(),
            final(self).font_view() == old(self).font_view(),
            final(self).rows_view() == fill_rows(
                old(self).rows_view(),
                y as int,
                y + 1,
                0,
                (old(self).info_view().width * 4) as nat,
                color@,
            ),
    {
        if y >= self.info.height {
            assert(self.rows_view() =~= fill_rows(
                old(self).rows_view(),
                y as int,
                y + 1,
                0,
                (old(self).info_view().width * 4) as nat,
                color@,
            ));
            return;
        }
        proof {
            lemma_geometry(self.info.height as nat, self.info.stride_pixels as nat, y as int);
        }
        self.fill_bytes(y, 0, self.info.width * 4, color);
        assert(self.rows_view() =~= fill_rows(
            old(self).rows_view(),
            y as int,
            y + 1,
            0,
            (old(self).info_view().width * 4) as nat,
            color@,
        ));
    }

    /// Fills the whole screen with a color.
    pub fn clear(&mut self, r: u8, g: u8, b: u8)
        requires
            old(self).wf(),
        ensures
            final(self).wf(),
            final(self).info_view() == old(self).info_view(),
            final(self).font_view() == old(self).font_view(),
            final(self).rows_view() == fill_rows(
                old(self).rows_view(),
                0,
                old(self).info_view().height as int,
                0,
                (old(self).info_view().width * 4) as nat,
                seq![b, g, r, 0u8],
            ),
    {
        let color = self.info.format.to_bytes(r, g, b);
        if self.info.height == 0 {
            assert(self.rows_view() =~= fill_rows(
                old(self).rows_view(),
                0,
                old(self).info_view().height as int,
                0,
                (old(self).info_view().width * 4) as nat,
                seq![b, g, r, 0u8],
            ));
            return;
        }
        proof {
            lemma_geometry(self.info.height as nat, self.info.stride_pixels as nat, 0);
        }
        let w4 = self.info.width * 4;
        self.fill_rect(0, self.info.height, 0, w4, color);
    }

    /// Fills the pixel rows of a text row with a background color; nothing
    /// for a row below the last.
    pub fn clear_text_row(&mut self, text_row: usize, bg: (u8, u8, u8))
        requires
            old(self).wf(),
        ensures
            final(self).wf(),
            final(self).info_view() == old(self).info_view(),
            final(self).font_view() == old(self).font_view(),
            text_row >= old(self).text_rows_spec() ==> final(self).rows_view() == old(self).rows_view(),
            text_row < old(self).text_rows_spec() ==> final(self).rows_view() == fill_rows(
                old(self).rows_view(),
                text_row * FONT_HEIGHT,
                text_row * FONT_HEIGHT + FONT_HEIGHT,
                0,
                (old(self).info_view().width * 4) as nat,
                seq![bg.2, bg.1, bg.0, 0u8],
            ),
    {
        if text_row >= self.rows() {
            return;
        }
        let color = self.info.format.to_bytes(bg.0, bg.1, bg.2);
        let y_start = text_row * FONT_HEIGHT;
        let y_end = y_start + FONT_HEIGHT;
        proof {
            lemma_geometry(self.info.height as nat, self.info.stride_pixels as nat, 0);
        }
        let w4 = self.info.width * 4;
        self.fill_rect(y_start, y_end, 0, w4, color);
    }

    /// Fills `len` cells of a text row from a column on with a background
    /// color, cut at the right edge; nothing off the screen or for none.
    pub fn clear_text_span(&mut self, col: usize, row: usize, len: usize, bg: (u8, u8, u8))
        requires
            old(self).wf(),
        ensures
            final(self).wf(),
            final(self).info_view() == old(self).info_view(),
            final(self).font_view() == old(self).font_view(),
            (row >= old(self).text_rows_spec() || col >= old(self).cols_spec() || len == 0) ==> final(self).rows_view() == old(self).rows_view(),
            !(row >= old(self).text_rows_spec() || col >= old(self).cols_spec() || len == 0) ==> final(self).rows_view() == fill_rows(
                old(self).rows_view(),
                row * FONT_HEIGHT,
                row * FONT_HEIGHT + FONT_HEIGHT,
                col * FONT_WIDTH * 4,
                ((if len < old(self).cols_spec() - col {
                    len as int
                } else {
                    old(self).cols_spec() - col
                }) * FONT_WIDTH * 4) as nat,
                seq![bg.2, bg.1, bg.0, 0u8],
            ),
    {
        if row >= self.rows() || col >= self.cols() || len == 0 {
            return;
        }
        let color = self.info.format.to_bytes(bg.0, bg.1, bg.2);
        let room = self.cols() - col;
        let max_len = if len < room {
            len
        } else {
            room
        };
        let y_start = row * FONT_HEIGHT;
        let y_end = y_start + FONT_HEIGHT;
        proof {
            lemma_geometry(self.info.height as nat, self.info.stride_pixels as nat, 0);
        }
        let start = col * FONT_WIDTH * 4;
        let n = max_len * FONT_WIDTH * 4;
        self.fill_rect(y_start, y_end, start, n, color);
    }

    /// Moves the picture up by `lines` text rows and fills the pixel rows
    /// freed at the bottom with a background color; a move of the whole
    /// screen or more fills everything.
    pub fn scroll_up_text_lines(&mut self, lines: usize, bg: (u8, u8, u8))
        requires
            old(self).wf(),
        ensures
            final(self).wf(),
            final(self).info_view() == old(self).info_view(),
            final(self).font_view() == old(self).font_view(),
            ({
                let h = old(self).info_view().height as int;
                let p = lines * FONT_HEIGHT;
                let color = seq![bg.2, bg.1, bg.0, 0u8];
                let w4 = (old(self).info_view().width * 4) as nat;
                &&& lines == 0 ==> final(self).rows_view() == old(self).rows_view()
                &&& lines > 0 && p >= h ==> final(self).rows_view() == fill_rows(
                    old(self).rows_view(),
                    0,
                    h,
                    0,
                    w4,
                    color,
                )
                &&& lines > 0 && p < h ==> final(self).rows_view() == Seq::new(
                    h as nat,
                    |y: int| if y < h - p {
                        old(self).rows_view()[y + p]
                    } else {
                        put_seg(old(self).rows_view()[y], 0, pattern(color, w4))
                    },
                )
            }),
    {
        if lines == 0 {
            return;
        }
        let pixel_rows = if lines > usize::MAX / FONT_HEIGHT {
            usize::MAX
        } else {
            lines * FONT_HEIGHT
        };
        if pixel_rows >= self.info.height {
            self.clear(bg.0, bg.1, bg.2);
            return;
        }
        let ghost sb = self.stride_bytes();
        let ghost h = self.info.height as nat;
        let ghost p = pixel_rows as int;
        proof {
            lemma_geometry(h, self.info.stride_pixels as nat, 0);
            lemma_row_in_memory(sb, h, p);
            lemma_rows_shift(sb, h, p);
        }
        let bytes_per_row = self.info.stride_pixels * 4;
        let total_bytes = self.buffer.len();
        let offset = pixel_rows * bytes_per_row;
        let mut k: usize = 0;
        while k < total_bytes - offset
            invariant
                self.wf(),
                self.info == old(self).info,
                self.font@ == old(self).font@,
                total_bytes == self.buffer@.len(),
                self.buffer@.len() == old(self).buffer@.len(),
                offset <= total_bytes,
                k <= total_bytes - offset,
                forall|j: int| 0 <= j < self.buffer@.len() ==> #[trigger] self.buffer@[j] == if j < k {
                    old(self).buffer@[j + offset]
                } else {
                    old(self).buffer@[j]
                },
            decreases total_bytes - offset - k,
        {
            self.buffer[k] = self.buffer[k + offset];
            k = k + 1;
        }
        let ghost moved = self.rows_view();
        proof {
            let old_rows = old(self).rows_view();
            assert forall|y: int| 0 <= y < h implies #[trigger] moved[y] == if y < h - p {
                old_rows[y + p]
            } else {
                old_rows[y]
            } by {
                lemma_row_in_memory(sb, h, y);
                if y < h - p {
                    lemma_row_in_memory(sb, h, y + p);
                    lemma_row_offset(sb, y, p);
                    assert(moved[y] =~= old_rows[y + p]);
                } else {
                    lemma_row_start_mono(sb, h - p, y);
                    assert(moved[y] =~= old_rows[y]);
                }
            }
        }
        let color = self.info.format.to_bytes(bg.0, bg.1, bg.2);
        let start_row = self.info.height - pixel_rows;
        let w4 = self.info.width * 4;
        self.fill_rect(start_row, self.info.height, 0, w4, color);
        proof {
            let color_s = seq![bg.2, bg.1, bg.0, 0u8];
            let old_rows = old(self).rows_view();
            assert(self.rows_view() =~= Seq::new(
                h,
                |y: int| if y < h - p {
                    old_rows[y + p]
                } else {
                    put_seg(old_rows[y], 0, pattern(color_s, w4 as nat))
                },
            ));
        }
    }
}

/// The rows with a glyph's pixels put into a cell: each of the cell's
/// sixteen pixel rows gets its scanline.
pub open spec fn draw_glyph(rows: Seq<Seq<u8>>, col: int, row: int, pixels: Seq<u8>) -> Seq<Seq<u8>> {
    Seq::new(
        rows.len(),
        |y: int| if row * 16 <= y < row * 16 + 16 {
            put_seg(rows[y], col * 32, pixels.subrange((y - row * 16) * 32, (y - row * 16) * 32 + 32))
        } else {
            rows[y]
        },
    )
}

/// A scanline of a text row: the scanline of each character's glyph, one
/// after another.
pub open spec fn line_scan(font: Seq<[u8; 16]>, bytes: Seq<u8>, s: int, fg: Seq<u8>, bg: Seq<u8>) -> Seq<u8>
    decreases bytes.len(),
{
    if bytes.len() == 0 {
        Seq::empty()
    } else {
        line_scan(font, bytes.drop_last(), s, fg, bg) + glyph_row(font[glyph_index(bytes.last())]@[s], fg, bg)
    }
}

/// A scanline of `n` characters is `32 n` bytes.
proof fn lemma_line_scan_len(font: Seq<[u8; 16]>, bytes: Seq<u8>, s: int, fg: Seq<u8>, bg: Seq<u8>)
    ensures
        line_scan(font, bytes, s, fg, bg).len() == bytes.len() * 32,
    decreases bytes.len(),
{
    if bytes.len() > 0 {
        lemma_line_scan_len(font, bytes.drop_last(), s, fg, bg);
    }
}

/// The rows with characters drawn in consecutive cells of a text row.
pub open spec fn draw_chars(
    rows: Seq<Seq<u8>>,
    font: Seq<[u8; 16]>,
    col: int,
    row: int,
    bytes: Seq<u8>,
    fg: Seq<u8>,
    bg: Seq<u8>,
) -> Seq<Seq<u8>>
    decreases bytes.len(),
{
    if bytes.len() == 0 {
        rows
    } else {
        draw_glyph(
            draw_chars(rows, font, col, row, bytes.drop_last(), fg, bg),
            col + bytes.len() - 1,
            row,
            glyph_pixels(font[glyph_index(bytes.last())], fg, bg),
        )
    }
}

/// What drawing text from a cell gives, the number of characters drawn
/// and the rows: text of four or more bytes with no newline is drawn along
/// the row, cut at the right edge, and nothing from a cell off the screen;
/// other text goes through the wrapping walk.
pub open spec fn text_drawn(
    rows: Seq<Seq<u8>>,
    cols: nat,
    text_rows: nat,
    font: Seq<[u8; 16]>,
    col: int,
    row: int,
    bytes: Seq<u8>,
    fg: Seq<u8>,
    bg: Seq<u8>,
) -> (nat, Seq<Seq<u8>>) {
    if bytes.len() < 4 || bytes.contains(10u8) {
        let walk = text_draw(
            cols,
            text_rows,
            font,
            fg,
            bg,
            TextDraw { col, row, drawn: 0, rows, stopped: false },
            bytes,
        );
        (walk.drawn, walk.rows)
    } else if row >= text_rows || col >= cols {
        (0, rows)
    } else {
        let n = if bytes.len() < cols - col {
            bytes.len() as int
        } else {
            cols - col
        };
        (n as nat, draw_chars(rows, font, col, row, bytes.take(n), fg, bg))
    }
}

/// Where a walk drawing text stands.
pub struct TextDraw {
    pub col: int,
    pub row: int,
    pub drawn: nat,
    pub rows: Seq<Seq<u8>>,
    pub stopped: bool,
}

/// One byte of a text walk: a newline moves to the start of the next text
/// row (stopping below the last); any other byte wraps to the next row at
/// the right edge, stops below the last row, and is otherwise drawn when
/// its cell is on the screen, moving one column on either way.
pub open spec fn draw_step(
    cols: nat,
    text_rows: nat,
    font: Seq<[u8; 16]>,
    fg: Seq<u8>,
    bg: Seq<u8>,
    s: TextDraw,
    byte: u8,
) -> TextDraw {
    if s.stopped {
        s
    } else if byte == 10 {
        TextDraw { col: 0, row: s.row + 1, stopped: s.row + 1 >= text_rows, ..s }
    } else {
        let (col, row) = if s.col >= cols {
            (0, s.row + 1)
        } else {
            (s.col, s.row)
        };
        if row >= text_rows {
            TextDraw { col, row, stopped: true, ..s }
        } else if col < cols {
            TextDraw {
                col: col + 1,
                row,
                drawn: s.drawn + 1,
                rows: draw_glyph(s.rows, col, row, glyph_pixels(font[glyph_index(byte)], fg, bg)),
                stopped: false,
            }
        } else {
            TextDraw { col: col + 1, row, ..s }
        }
    }
}

/// A walk drawing the bytes, one after another.
pub open spec fn text_draw(
    cols: nat,
    text_rows: nat,
    font: Seq<[u8; 16]>,
    fg: Seq<u8>,
    bg: Seq<u8>,
    start: TextDraw,
    bytes: Seq<u8>,
) -> TextDraw
    decreases bytes.len(),
{
    if bytes.len() == 0 {
        start
    } else {
        draw_step(cols, text_rows, font, fg, bg, text_draw(cols, text_rows, font, fg, bg, start, bytes.drop_last()), bytes.last())
    }
}

/// Once a text walk has stopped, further bytes leave it as it is.
proof fn lemma_text_draw_stays(
    cols: nat,
    text_rows: nat,
    font: Seq<[u8; 16]>,
    fg: Seq<u8>,
    bg: Seq<u8>,
    start: TextDraw,
    bytes: Seq<u8>,
    i: int,
    j: int,
)
    requires
        0 <= i <= j <= bytes.len(),
        text_draw(cols, text_rows, font, fg, bg, start, bytes.take(i)).stopped,
    ensures
        text_draw(cols, text_rows, font, fg, bg, start, bytes.take(j)) == text_draw(
            cols,
            text_rows,
            font,
            fg,
            bg,
            start,
            bytes.take(i),
        ),
    decreases j - i,
{
    if j > i {
        lemma_text_draw_stays(cols, text_rows, font, fg, bg, start, bytes, i, j - 1);
        assert(bytes.take(j).drop_last() =~= bytes.take(j - 1));
    }
}

/// Rows from `y0` up to `y1` each with `n` bytes from `start` on filled with
/// a color; the other rows as they were.
pub open spec fn fill_rows(rows: Seq<Seq<u8>>, y0: int, y1: int, start: int, n: nat, color: Seq<u8>) -> Seq<Seq<u8>> {
    Seq::new(
        rows.len(),
        |y: int| if y0 <= y < y1 {
            put_seg(rows[y], start, pattern(color, n))
        } else {
            rows[y]
        },
    )
}

/// Later rows start later.
proof fn lemma_row_start_mono(stride_bytes: nat, y1: int, y2: int)
    requires
        0 <= y1 <= y2,
    ensures
        y1 * stride_bytes <= y2 * stride_bytes,
{
    assert(y1 * stride_bytes <= y2 * stride_bytes) by (nonlinear_arith)
        requires
            0 <= y1 <= y2,
    ;
}

/// Moving the memory by `p` rows moves each row by `p`.
proof fn lemma_row_offset(stride_bytes: nat, y: int, p: int)
    requires
        0 <= y,
        0 <= p,
    ensures
        (y + p) * stride_bytes == y * stride_bytes + p * stride_bytes,
{
    assert((y + p) * stride_bytes == y * stride_bytes + p * stride_bytes) by (nonlinear_arith);
}

/// The memory past the first `p` rows has room for `height - p` rows.
proof fn lemma_rows_shift(stride_bytes: nat, height: nat, p: int)
    requires
        0 <= p < height,
    ensures
        p * stride_bytes <= height * stride_bytes,
        (height - p) * stride_bytes == height * stride_bytes - p * stride_bytes,
{
    assert(p * stride_bytes <= height * stride_bytes) by (nonlinear_arith)
        requires
            0 <= p < height,
    ;
    assert((height - p) * stride_bytes == height * stride_bytes - p * stride_bytes) by (nonlinear_arith);
}

/// The pixels of a character cell drawn in an attribute's colors.
pub open spec fn cell_glyph(font: Seq<[u8; 16]>, ch: u8, attr: u8) -> Seq<u8> {
    let fg = vga_palette(attr & 0x0F);
    let bg = vga_palette((attr >> 4u8) & 0x0F);
    glyph_pixels(font[glyph_index(ch)], seq![fg.2, fg.1, fg.0, 0u8], seq![bg.2, bg.1, bg.0, 0u8])
}

/// The pixels of a blank cell: the attribute's background color
/// throughout.
pub open spec fn blank_glyph(attr: u8) -> Seq<u8> {
    let bg = vga_palette((attr >> 4u8) & 0x0F);
    pattern(seq![bg.2, bg.1, bg.0, 0u8], 512)
}

impl BareMetalFramebuffer {
    /// Whether a text cell is on the screen and holds the given pixels,
    /// sixteen scanlines of thirty-two bytes one after another.
    pub open spec fn cell_is(&self, col: int, row: int, pix: Seq<u8>) -> bool {
        &&& 0 <= col < self.cols_spec()
        &&& 0 <= row < self.text_rows_spec()
        &&& forall|y: int, x: int|
            0 <= y < 16 && 0 <= x < 32 ==> #[trigger] self.rows_view()[row * 16 + y][col * 32 + x] == pix[y * 32
                + x]
    }
}

/// A pixel of a text cell lies in the rows of a framebuffer.
proof fn lemma_cell_pixel_in_rows(fb: BareMetalFramebuffer, col: int, row: int, y: int, x: int)
    requires
        fb.wf(),
        0 <= col < fb.cols_spec(),
        0 <= row < fb.text_rows_spec(),
        0 <= y < 16,
        0 <= x < 32,
    ensures
        0 <= row * 16 + y < fb.rows_view().len(),
        0 <= col * 32 + x < fb.rows_view()[row * 16 + y].len(),
{
    let h = fb.info_view().height as int;
    let w = fb.info_view().width as int;
    let st = fb.info_view().stride_pixels as int;
    assert(row * 16 + 16 <= h) by (nonlinear_arith)
        requires
            0 <= row < h / 16,
    ;
    assert(col * 32 + 32 <= st * 4) by (nonlinear_arith)
        requires
            0 <= col < w / 8,
            w <= st,
    ;
    lemma_geometry(h as nat, st as nat, row * 16 + y);
}

/// Two framebuffers with the same geometry and pixels hold the same cells.
proof fn lemma_same_cells(a: BareMetalFramebuffer, b: BareMetalFramebuffer)
    requires
        a.info_view() == b.info_view(),
        a.rows_view() == b.rows_view(),
    ensures
        forall|c: int, w: int, pix: Seq<u8>| #[trigger] a.cell_is(c, w, pix) == b.cell_is(c, w, pix),
{
    assert forall|c: int, w: int, pix: Seq<u8>| #[trigger] a.cell_is(c, w, pix) == b.cell_is(c, w, pix) by {
        if a.cell_is(c, w, pix) {
            assert forall|y: int, x: int| 0 <= y < 16 && 0 <= x < 32 implies #[trigger] b.rows_view()[w * 16 + y][c
                * 32 + x] == pix[y * 32 + x] by {
                assert(a.rows_view()[w * 16 + y][c * 32 + x] == pix[y * 32 + x]);
            }
        }
        if b.cell_is(c, w, pix) {
            assert forall|y: int, x: int| 0 <= y < 16 && 0 <= x < 32 implies #[trigger] a.rows_view()[w * 16 + y][c
                * 32 + x] == pix[y * 32 + x] by {
                assert(b.rows_view()[w * 16 + y][c * 32 + x] == pix[y * 32 + x]);
            }
        }
    }
}

/// Drawing a glyph into a cell makes the cell hold it and leaves every
/// other cell as it was.
proof fn lemma_draw_cell(before: BareMetalFramebuffer, after: BareMetalFramebuffer, col: int, row: int, g: Seq<u8>)
    requires
        before.wf(),
        after.info_view() == before.info_view(),
        g.len() == 512,
        0 <= col < before.cols_spec(),
        0 <= row < before.text_rows_spec(),
        after.rows_view() == draw_glyph(before.rows_view(), col, row, g),
    ensures
        after.cell_is(col, row, g),
        forall|c: int, w: int, pix: Seq<u8>|
            !(c == col && w == row) ==> #[trigger] after.cell_is(c, w, pix) == before.cell_is(c, w, pix),
{
    assert forall|y: int, x: int| 0 <= y < 16 && 0 <= x < 32 implies #[trigger] after.rows_view()[row * 16 + y][col
        * 32 + x] == g[y * 32 + x] by {
        lemma_cell_pixel_in_rows(before, col, row, y, x);
    }
    assert forall|c: int, w: int, pix: Seq<u8>| !(c == col && w == row) implies #[trigger] after.cell_is(c, w, pix)
        == before.cell_is(c, w, pix) by {
        if 0 <= c < before.cols_spec() && 0 <= w < before.text_rows_spec() {
            assert forall|y: int, px: int| 0 <= y < 16 && 0 <= px < 32 implies #[trigger] after.rows_view()[w * 16
                + y][c * 32 + px] == before.rows_view()[w * 16 + y][c * 32 + px] by {
                lemma_cell_pixel_in_rows(before, c, w, y, px);
                if w != row {
                    assert(!(row * 16 <= w * 16 + y < row * 16 + 16));
                } else {
                    assert(!(col * 32 <= c * 32 + px < col * 32 + 32));
                }
            }
            if before.cell_is(c, w, pix) {
                assert forall|y: int, px: int| 0 <= y < 16 && 0 <= px < 32 implies #[trigger] after.rows_view()[w
                    * 16 + y][c * 32 + px] == pix[y * 32 + px] by {
                    assert(before.rows_view()[w * 16 + y][c * 32 + px] == pix[y * 32 + px]);
                }
            }
            if after.cell_is(c, w, pix) {
                assert forall|y: int, px: int| 0 <= y < 16 && 0 <= px < 32 implies #[trigger] before.rows_view()[w
                    * 16 + y][c * 32 + px] == pix[y * 32 + px] by {
                    assert(after.rows_view()[w * 16 + y][c * 32 + px] == pix[y * 32 + px]);
                }
            }
        }
    }
}

/// Filling part of a text row with a background color blanks the cells
/// filled and leaves every other cell as it was.
proof fn lemma_fill_cells(before: BareMetalFramebuffer, after: BareMetalFramebuffer, col: int, row: int, m: int, attr: u8)
    requires
        before.wf(),
        after.info_view() == before.info_view(),
        0 <= col,
        0 < m,
        col + m <= before.cols_spec(),
        0 <= row < before.text_rows_spec(),
        ({
            let bg = vga_palette((attr >> 4u8) & 0x0F);
            after.rows_view() == fill_rows(
                before.rows_view(),
                row * 16,
                row * 16 + 16,
                col * 32,
                (m * 32) as nat,
                seq![bg.2, bg.1, bg.0, 0u8],
            )
        }),
    ensures
        forall|c: int| col <= c < col + m ==> #[trigger] after.cell_is(c, row, blank_glyph(attr)),
        forall|c: int, w: int, pix: Seq<u8>|
            !(w == row && col <= c < col + m) ==> #[trigger] after.cell_is(c, w, pix) == before.cell_is(c, w, pix),
{
    let g = blank_glyph(attr);
    assert forall|c: int| col <= c < col + m implies #[trigger] after.cell_is(c, row, g) by {
        assert forall|y: int, x: int| 0 <= y < 16 && 0 <= x < 32 implies #[trigger] after.rows_view()[row * 16
            + y][c * 32 + x] == g[y * 32 + x] by {
            lemma_cell_pixel_in_rows(before, c, row, y, x);
            assert((c * 32 + x - col * 32) % 4 == (y * 32 + x) % 4) by (nonlinear_arith);
        }
    }
    assert forall|c: int, w: int, pix: Seq<u8>| !(w == row && col <= c < col + m) implies #[trigger] after.cell_is(
        c,
        w,
        pix,
    ) == before.cell_is(c, w, pix) by {
        if 0 <= c < before.cols_spec() && 0 <= w < before.text_rows_spec() {
            assert forall|y: int, px: int| 0 <= y < 16 && 0 <= px < 32 implies #[trigger] after.rows_view()[w * 16
                + y][c * 32 + px] == before.rows_view()[w * 16 + y][c * 32 + px] by {
                lemma_cell_pixel_in_rows(before, c, w, y, px);
                if w != row {
                    assert(!(row * 16 <= w * 16 + y < row * 16 + 16));
                } else {
                    assert(!(col * 32 <= c * 32 + px < col * 32 + m * 32));
                }
            }
            if before.cell_is(c, w, pix) {
                assert forall|y: int, px: int| 0 <= y < 16 && 0 <= px < 32 implies #[trigger] after.rows_view()[w
                    * 16 + y][c * 32 + px] == pix[y * 32 + px] by {
                    assert(before.rows_view()[w * 16 + y][c * 32 + px] == pix[y * 32 + px]);
                }
            }
            if after.cell_is(c, w, pix) {
                assert forall|y: int, px: int| 0 <= y < 16 && 0 <= px < 32 implies #[trigger] before.rows_view()[w
                    * 16 + y][c * 32 + px] == pix[y * 32 + px] by {
                    assert(after.rows_view()[w * 16 + y][c * 32 + px] == pix[y * 32 + px]);
                }
            }
        }
    }
}

/// Filling the whole screen with a background color blanks every cell.
proof fn lemma_fill_screen(before: BareMetalFramebuffer, after: BareMetalFramebuffer, attr: u8)
    requires
        before.wf(),
        after.info_view() == before.info_view(),
        ({
            let bg = vga_palette((attr >> 4u8) & 0x0F);
            after.rows_view() == fill_rows(
                before.rows_view(),
                0,
                before.info_view().height as int,
                0,
                (before.info_view().width * 4) as nat,
                seq![bg.2, bg.1, bg.0, 0u8],
            )
        }),
    ensures
        forall|c: int, w: int|
            0 <= c < before.cols_spec() && 0 <= w < before.text_rows_spec() ==> #[trigger] after.cell_is(
                c,
                w,
                blank_glyph(attr),
            ),
{
    let g = blank_glyph(attr);
    assert forall|c: int, w: int| 0 <= c < before.cols_spec() && 0 <= w < before.text_rows_spec() implies #[trigger] after.cell_is(
        c,
        w,
        g,
    ) by {
        assert forall|y: int, x: int| 0 <= y < 16 && 0 <= x < 32 implies #[trigger] after.rows_view()[w * 16 + y][c
            * 32 + x] == g[y * 32 + x] by {
            lemma_cell_pixel_in_rows(before, c, w, y, x);
            let wd = before.info_view().width as int;
            assert(c * 32 + x < wd * 4) by (nonlinear_arith)
                requires
                    0 <= c < wd / 8,
                    0 <= x < 32,
            ;
            assert((c * 32 + x) % 4 == (y * 32 + x) % 4) by (nonlinear_arith);
        }
    }
}

impl DisplaySink for BareMetalFramebuffer {
    open spec fn dims_view(&self) -> (usize, usize) {
        (self.cols_spec() as usize, self.text_rows_spec() as usize)
    }

    open spec fn ready(&self) -> bool {
        self.wf()
    }

    open spec fn shows(&self, col: int, row: int, ch: u8, attr: u8) -> bool {
        self.cell_is(col, row, cell_glyph(self.font_view(), ch, attr))
    }

    open spec fn blank(&self, col: int, row: int, attr: u8) -> bool {
        self.cell_is(col, row, blank_glyph(attr))
    }

    open spec fn cursor_mark() -> Option<u8> {
        Some(95u8)
    }

    closed spec fn writes(&self) -> Seq<SinkWrite> {
        self.writes@
    }

    fn dims(&self) -> (r: (usize, usize)) {
        (self.cols(), self.rows())
    }

    /// Fills the screen with the attribute's background color.
    fn clear(&mut self, attr: u8)
        ensures
            final(self).info_view() == old(self).info_view(),
            final(self).font_view() == old(self).font_view(),
            ({
                let bg = vga_palette((attr >> 4u8) & 0x0F);
                final(self).rows_view() == fill_rows(
                    old(self).rows_view(),
                    0,
                    old(self).info_view().height as int,
                    0,
                    (old(self).info_view().width * 4) as nat,
                    seq![bg.2, bg.1, bg.0, 0u8],
                )
            }),
    {
        let (_, bg) = attr_to_rgb(attr);
        BareMetalFramebuffer::clear(self, bg.0, bg.1, bg.2);
        proof {
            lemma_fill_screen(*old(self), *self, attr);
        }
    }

    /// Draws a character in the attribute's colors.
    fn write_at(&mut self, col: usize, row: usize, ch: u8, attr: u8) -> (r: bool)
        ensures
            final(self).info_view() == old(self).info_view(),
            final(self).font_view() == old(self).font_view(),
            r == (col < old(self).cols_spec() && row < old(self).text_rows_spec()),
            !r ==> final(self).rows_view() == old(self).rows_view(),
            r ==> ({
                let fg = vga_palette(attr & 0x0F);
                let bg = vga_palette((attr >> 4u8) & 0x0F);
                final(self).rows_view() == draw_glyph(
                    old(self).rows_view(),
                    col as int,
                    row as int,
                    glyph_pixels(
                        old(self).font_view()[glyph_index(ch)],
                        seq![fg.2, fg.1, fg.0, 0u8],
                        seq![bg.2, bg.1, bg.0, 0u8],
                    ),
                )
            }),
    {
        let (fg, bg) = attr_to_rgb(attr);
        let ghost log = self.writes@;
        let r = self.draw_char_at(col, row, ch, fg, bg);
        self.writes = Ghost(log.push(SinkWrite::Cell(col, row)));
        proof {
            if r {
                lemma_draw_cell(*old(self), *self, col as int, row as int, cell_glyph(old(self).font_view(), ch, attr));
            } else {
                lemma_same_cells(*old(self), *self);
            }
        }
        r
    }

    /// Draws text in the attribute's colors; nothing from the last possible
    /// row index, which no screen has.
    fn write_str_at(&mut self, col: usize, row: usize, text: &str, attr: u8) -> (r: usize)
        ensures
            final(self).info_view() == old(self).info_view(),
            final(self).font_view() == old(self).font_view(),
            row == usize::MAX ==> r == 0 && final(self).rows_view() == old(self).rows_view(),
            row < usize::MAX ==> ({
                let fg = vga_palette(attr & 0x0F);
                let bg = vga_palette((attr >> 4u8) & 0x0F);
                (r as nat, final(self).rows_view()) == text_drawn(
                    old(self).rows_view(),
                    old(self).cols_spec(),
                    old(self).text_rows_spec(),
                    old(self).font_view(),
                    col as int,
                    row as int,
                    text.spec_bytes(),
                    seq![fg.2, fg.1, fg.0, 0u8],
                    seq![bg.2, bg.1, bg.0, 0u8],
                )
            }),
    {
        if row == usize::MAX {
            return 0;
        }
        let (fg, bg) = attr_to_rgb(attr);
        self.draw_text_at(col, row, text, fg, bg)
    }

    /// Fills the span of cells with the attribute's background color.
    fn clear_span(&mut self, col: usize, row: usize, len: usize, attr: u8) -> (r: usize)
        ensures
            r == len,
            final(self).info_view() == old(self).info_view(),
            final(self).font_view() == old(self).font_view(),
            (row >= old(self).text_rows_spec() || col >= old(self).cols_spec() || len == 0) ==> final(self).rows_view()
                == old(self).rows_view(),
            !(row >= old(self).text_rows_spec() || col >= old(self).cols_spec() || len == 0) ==> ({
                let bg = vga_palette((attr >> 4u8) & 0x0F);
                final(self).rows_view() == fill_rows(
                    old(self).rows_view(),
                    row * FONT_HEIGHT,
                    row * FONT_HEIGHT + FONT_HEIGHT,
                    col * FONT_WIDTH * 4,
                    ((if len < old(self).cols_spec() - col {
                        len as int
                    } else {
                        old(self).cols_spec() - col
                    }) * FONT_WIDTH * 4) as nat,
                    seq![bg.2, bg.1, bg.0, 0u8],
                )
            }),
    {
        let (_, bg) = attr_to_rgb(attr);
        let ghost log = self.writes@;
        self.clear_text_span(col, row, len, bg);
        self.writes = Ghost(log + span_writes(col, row, len));
        proof {
            if !(row >= old(self).text_rows_spec() || col >= old(self).cols_spec() || len == 0) {
                let m = if len < old(self).cols_spec() - col {
                    len as int
                } else {
                    old(self).cols_spec() - col
                };
                lemma_fill_cells(*old(self), *self, col as int, row as int, m, attr);
            } else {
                lemma_same_cells(*old(self), *self);
            }
        }
        len
    }

    /// Draws the cursor in the attribute's colors.
    fn draw_cursor(&mut self, col: usize, row: usize, attr: u8)
        ensures
            final(self).info_view() == old(self).info_view(),
            final(self).font_view() == old(self).font_view(),
            !(col < old(self).cols_spec() && row < old(self).text_rows_spec()) ==> final(self).rows_view()
                == old(self).rows_view(),
            (col < old(self).cols_spec() && row < old(self).text_rows_spec()) ==> ({
                let fg = vga_palette(attr & 0x0F);
                let bg = vga_palette((attr >> 4u8) & 0x0F);
                final(self).rows_view() == draw_glyph(
                    old(self).rows_view(),
                    col as int,
                    row as int,
                    glyph_pixels(
                        old(self).font_view()[glyph_index(95u8)],
                        seq![fg.2, fg.1, fg.0, 0u8],
                        seq![bg.2, bg.1, bg.0, 0u8],
                    ),
                )
            }),
    {
        let (fg, bg) = attr_to_rgb(attr);
        let ghost log = self.writes@;
        BareMetalFramebuffer::draw_cursor(self, col, row, fg, bg);
        self.writes = Ghost(log.push(SinkWrite::Cursor(col, row)));
        proof {
            if col < old(self).cols_spec() && row < old(self).text_rows_spec() {
                lemma_draw_cell(*old(self), *self, col as int, row as int, cell_glyph(old(self).font_view(), 95u8, attr));
            } else {
                lemma_same_cells(*old(self), *self);
            }
        }
    }
}

} // verus!
