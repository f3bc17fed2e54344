//! The framebuffer terminal.
//!
//! Text is rendered into a pixel buffer: the full screen for the main
//! terminal, or a per-core window laid out on a grid. The font rasterizer
//! is an outside collaborator reached through trusted wrappers; everything
//! the kernel computes - window geometry, pixel addressing, colour
//! blending, cursor movement, the double-buffer swap - is verified here.

use vstd::prelude::*;

verus! {

/// How the framebuffer lays out one pixel.
#[derive(Clone, Copy, PartialEq, Eq, Structural)]
pub enum PixelFormat {
    /// One byte each of red, green, blue.
    Rgb,
    /// One byte each of blue, green, red.
    Bgr,
    /// A single luminance byte.
    Grayscale,
}

/// An 8-bit-per-channel colour.
#[derive(Debug, Clone, Copy, PartialEq, Eq, Structural)]
pub struct Color {
    /// The red channel.
    pub r: u8,
    /// The green channel.
    pub g: u8,
    /// The blue channel.
    pub b: u8,
}

/// Linear interpolation of one channel with `alpha` in units of 1/1024,
/// moving from `a` towards `b` with the fraction rounded towards `a`.
pub open spec fn spec_lerp_channel(a: u8, b: u8, alpha_1024: u32) -> int {
    if b >= a {
        a + (b - a) * alpha_1024 / 1024
    } else {
        a - (a - b) * alpha_1024 / 1024
    }
}

impl Color {
    /// The colour with the given channels.
    pub fn new(r: u8, g: u8, b: u8) -> (c: Self)
        ensures
            c == (Color { r, g, b }),
    {
        Color { r, g, b }
    }

    /// Black.
    pub fn black() -> (c: Self)
        ensures
            c == (Color { r: 0u8, g: 0u8, b: 0u8 }),
    {
        Color { r: 0, g: 0, b: 0 }
    }

    /// White.
    pub fn white() -> (c: Self)
        ensures
            c == (Color { r: 255u8, g: 255u8, b: 255u8 }),
    {
        Color { r: 255, g: 255, b: 255 }
    }

    /// Blends towards `other`: `alpha_1024` is the blend factor in units
    /// of 1/1024, up to 1024 (fully `other`).
    pub fn lerp(self, other: Self, alpha_1024: u32) -> (c: Self)
        requires
            alpha_1024 <= 1024,
        ensures
            c.r == spec_lerp_channel(self.r, other.r, alpha_1024),
            c.g == spec_lerp_channel(self.g, other.g, alpha_1024),
            c.b == spec_lerp_channel(self.b, other.b, alpha_1024),
    {
        let r = lerp_channel(self.r, other.r, alpha_1024);
        let g = lerp_channel(self.g, other.g, alpha_1024);
        let b = lerp_channel(self.b, other.b, alpha_1024);
        Color { r, g, b }
    }
}

fn lerp_channel(a: u8, b: u8, alpha: u32) -> (r: u8)
    requires
        alpha <= 1024,
    ensures
        r == spec_lerp_channel(a, b, alpha),
{
    proof {
        lemma_lerp_channel_bounds(a, b, alpha);
    }
    if b >= a {
        (a as u32 + ((b - a) as u32 * alpha) / 1024) as u8
    } else {
        (a as u32 - ((a - b) as u32 * alpha) / 1024) as u8
    }
}

proof fn lemma_lerp_channel_bounds(a: u8, b: u8, alpha: u32)
    requires
        alpha <= 1024,
    ensures
        b >= a ==> a + (b - a) * alpha / 1024 <= 255,
        b < a ==> 0 <= a - (a - b) * alpha / 1024 <= a,
{
    if b >= a {
        let d = (b - a) as int;
        assert(a + d * alpha / 1024 <= 255) by (nonlinear_arith)
            requires
                d == b - a,
                0 <= a <= 255,
                a + d <= 255,
                0 <= alpha <= 1024,
        ;
    } else {
        let d = (a - b) as int;
        assert(0 <= a - d * alpha / 1024 <= a) by (nonlinear_arith)
            requires
                d == a - b,
                0 <= d <= a,
                0 <= alpha <= 1024,
        ;
    }
}

/// Where a window sits on a grid that divides the screen.
#[derive(Debug, Clone, Copy, PartialEq, Eq, Structural)]
pub struct PlacementInfo {
    /// Number of grid columns.
    pub x_div: usize,
    /// Number of grid rows.
    pub y_div: usize,
    /// The window's grid column.
    pub x_index: usize,
    /// The window's grid row.
    pub y_index: usize,
    /// How many grid columns the window spans.
    pub x_size: usize,
    /// How many grid rows the window spans.
    pub y_size: usize,
}

/// The framebuffer's geometry as the boot info reports it.
#[derive(Clone, Copy, PartialEq, Eq, Structural)]
pub struct FbInfo {
    /// Visible pixels per row.
    pub width: usize,
    /// Rows.
    pub height: usize,
    /// Pixels per row including padding.
    pub stride: usize,
    /// Bytes per pixel.
    pub bytes_per_pixel: usize,
    /// Total framebuffer bytes.
    pub byte_len: usize,
    /// The pixel layout.
    pub pixel_format: PixelFormat,
}

impl FbInfo {
    /// Sanity of the reported geometry, and bounds that keep every pixel
    /// address computable.
    pub open spec fn wf(self) -> bool {
        &&& 1 <= self.width <= 65536
        &&& 1 <= self.height <= 65536
        &&& self.width <= self.stride <= 65536
        &&& 1 <= self.bytes_per_pixel <= 16
        &&& (self.pixel_format == PixelFormat::Rgb || self.pixel_format == PixelFormat::Bgr)
            ==> self.bytes_per_pixel >= 3
        &&& self.stride * self.height * self.bytes_per_pixel <= 0x1000_0000
    }
}

/// A window of the framebuffer: its byte offset and geometry.
#[derive(Clone, Copy, PartialEq, Eq, Structural)]
pub struct WindowInfo {
    /// Byte offset of the window's top-left pixel in the framebuffer.
    pub byte_offset: usize,
    /// Window width in pixels.
    pub width: usize,
    /// Window height in rows.
    pub height: usize,
    /// The pixel layout.
    pub pixel_format: PixelFormat,
    /// Bytes per pixel.
    pub bytes_per_pixel: usize,
    /// Framebuffer pixels per row.
    pub stride: usize,
}

impl WindowInfo {
    /// The window starting at pixel `(x, y)` with the given size; the
    /// window must fit the screen width both ways.
    pub fn new(x: usize, y: usize, width: usize, height: usize, fb: &FbInfo) -> (r: Self)
        requires
            fb.wf(),
            x + width <= fb.width,
            y + height <= fb.width,
            y + height <= fb.height,
        ensures
            r.byte_offset == (y * fb.stride + x) * fb.bytes_per_pixel,
            r.width == width,
            r.height == height,
            r.pixel_format == fb.pixel_format,
            r.bytes_per_pixel == fb.bytes_per_pixel,
            r.stride == fb.stride,
    {
        proof {
            assert(y * fb.stride + x <= fb.height * fb.stride + fb.stride && (y * fb.stride + x)
                * fb.bytes_per_pixel <= fb.stride * fb.height * fb.bytes_per_pixel + fb.stride
                * fb.bytes_per_pixel) by (nonlinear_arith)
                requires
                    0 <= x <= fb.stride,
                    1 <= fb.bytes_per_pixel,
                    0 <= fb.stride,
                    0 <= y <= fb.height,
            ;
            assert(fb.stride * fb.bytes_per_pixel <= 65536 * 16) by (nonlinear_arith)
                requires
                    0 <= fb.stride <= 65536,
                    0 <= fb.bytes_per_pixel <= 16,
            ;
            assert(fb.height * fb.stride <= fb.stride * fb.height * fb.bytes_per_pixel)
                by (nonlinear_arith)
                requires
                    1 <= fb.bytes_per_pixel,
                    0 <= fb.stride,
                    0 <= fb.height,
            ;
        }
        let pixel_offset = y * fb.stride + x;
        let byte_offset = pixel_offset * fb.bytes_per_pixel;
        WindowInfo {
            byte_offset,
            width,
            height,
            pixel_format: fb.pixel_format,
            bytes_per_pixel: fb.bytes_per_pixel,
            stride: fb.stride,
        }
    }

    /// The window covering the given grid cells of the screen.
    pub fn from_placement(placement: &PlacementInfo, fb: &FbInfo) -> (r: Self)
        requires
            fb.wf(),
            1 <= placement.x_div <= 16,
            1 <= placement.y_div <= 16,
            placement.x_index + placement.x_size <= placement.x_div,
            placement.y_index + placement.y_size <= placement.y_div,
            fb.height <= fb.width,
        ensures
            r.pixel_format == fb.pixel_format,
            r.bytes_per_pixel == fb.bytes_per_pixel,
            r.stride == fb.stride,
            r.width == ((placement.x_index + placement.x_size) * fb.width as int) / (
            placement.x_div as int) - (placement.x_index * fb.width as int) / (
            placement.x_div as int),
            r.height == ((placement.y_index + placement.y_size) * fb.height as int) / (
            placement.y_div as int) - (placement.y_index * fb.height as int) / (
            placement.y_div as int),
    {
        proof {
            assert(placement.x_index * fb.width <= 16 * 65536 && (placement.x_index
                + placement.x_size) * fb.width <= 16 * 65536 && placement.y_index * fb.height <= 16
                * 65536 && (placement.y_index + placement.y_size) * fb.height <= 16 * 65536)
                by (nonlinear_arith)
                requires
                    placement.x_index + placement.x_size <= placement.x_div <= 16,
                    placement.y_index + placement.y_size <= placement.y_div <= 16,
                    0 <= placement.x_index,
                    0 <= placement.y_index,
                    0 <= placement.x_size,
                    0 <= placement.y_size,
                    0 <= fb.width <= 65536,
                    0 <= fb.height <= 65536,
            ;
        }
        let start_pixel_x = placement.x_index * fb.width / placement.x_div;
        let stop_pixel_x = (placement.x_index + placement.x_size) * fb.width / placement.x_div;
        let start_pixel_y = placement.y_index * fb.height / placement.y_div;
        let stop_pixel_y = (placement.y_index + placement.y_size) * fb.height / placement.y_div;
        proof {
            lemma_grid_bounds(placement.x_index as int, placement.x_size as int,
                placement.x_div as int, fb.width as int);
            lemma_grid_bounds(placement.y_index as int, placement.y_size as int,
                placement.y_div as int, fb.height as int);
        }
        WindowInfo::new(
            start_pixel_x,
            start_pixel_y,
            stop_pixel_x - start_pixel_x,
            stop_pixel_y - start_pixel_y,
            fb,
        )
    }
}

proof fn lemma_grid_bounds(i: int, s: int, d: int, w: int)
    requires
        1 <= d,
        0 <= i,
        0 <= s,
        i + s <= d,
        0 <= w,
    ensures
        i * w / d <= (i + s) * w / d <= w,
    decreases 0int,
{
    assert(i * w / d <= (i + s) * w / d && (i + s) * w / d <= w) by (nonlinear_arith)
        requires
            1 <= d,
            0 <= i,
            0 <= s,
            i + s <= d,
            0 <= w,
    ;
}

/// The per-core terminal window: four columns, as many rows as the core
/// count needs.
pub fn window_for_core(id: usize, count: usize, fb: &FbInfo) -> (r: WindowInfo)
    requires
        fb.wf(),
        fb.height <= fb.width,
        id < count,
        count <= 60,
    ensures
        r.pixel_format == fb.pixel_format,
        r.stride == fb.stride,
{
    let placement = PlacementInfo {
        x_div: 4,
        y_div: (count + 4 - 1) / 4,
        x_index: id % 4,
        y_index: id / 4,
        x_size: 1,
        y_size: 1,
    };
    proof {
        assert(id % 4 < 4 && id / 4 + 1 <= (count + 3) / 4 && 1 <= (count + 3) / 4 <= 16)
            by (nonlinear_arith)
            requires
                id < count,
                0 <= id,
                count <= 60,
        ;
    }
    WindowInfo::from_placement(&placement, fb)
}

/// The font weights the terminal can render.
#[derive(Clone, Copy, PartialEq, Eq, Structural)]
pub enum FontWeight {
    Light,
    Regular,
    Bold,
}

/// The pre-rasterized font heights.
#[derive(Clone, Copy, PartialEq, Eq, Structural)]
pub enum FontSize {
    Size16,
    Size20,
    Size24,
    Size32,
}

/// The pixel height of a font size.
pub open spec fn spec_font_val(s: FontSize) -> usize {
    match s {
        FontSize::Size16 => 16,
        FontSize::Size20 => 20,
        FontSize::Size24 => 24,
        FontSize::Size32 => 32,
    }
}

/// The pixel height of a font size.
pub fn font_val(s: FontSize) -> (r: usize)
    ensures
        r == spec_font_val(s),
{
    match s {
        FontSize::Size16 => 16,
        FontSize::Size20 => 20,
        FontSize::Size24 => 24,
        FontSize::Size32 => 32,
    }
}

/// Relies on noto-sans-mono-bitmap's `get_raster`: the rasterized glyph of
/// `c` as intensity rows, or `None` for a character the font lacks. A
/// glyph has exactly as many rows as the raster height, per the generated
/// tables and `RasterizedChar::height`.
#[verifier::external_body]
fn get_raster_rows(c: char, weight: FontWeight, size: FontSize) -> (r: Option<Vec<Vec<u8>>>)
    ensures
        r matches Some(rows) ==> rows@.len() == spec_font_val(size),
{
    let w = match weight { FontWeight::Light => noto_sans_mono_bitmap::FontWeight::Light, FontWeight::Regular => noto_sans_mono_bitmap::FontWeight::Regular, FontWeight::Bold => noto_sans_mono_bitmap::FontWeight::Bold };
    let s = match size { FontSize::Size16 => noto_sans_mono_bitmap::RasterHeight::Size16, FontSize::Size20 => noto_sans_mono_bitmap::RasterHeight::Size20, FontSize::Size24 => noto_sans_mono_bitmap::RasterHeight::Size24, FontSize::Size32 => noto_sans_mono_bitmap::RasterHeight::Size32 };
    let rc = noto_sans_mono_bitmap::get_raster(c, w, s)?;
    Some(rc.raster().iter().map(|row| row.to_vec()).collect())
}

/// Relies on noto-sans-mono-bitmap's `get_raster_width`: the width shared
/// by every glyph of the weight and height; the generated tables hold only
/// positive widths, bounded by the raster height.
#[verifier::external_body]
fn raster_width(weight: FontWeight, size: FontSize) -> (r: usize)
    ensures
        1 <= r <= 64,
{
    let w = match weight { FontWeight::Light => noto_sans_mono_bitmap::FontWeight::Light, FontWeight::Regular => noto_sans_mono_bitmap::FontWeight::Regular, FontWeight::Bold => noto_sans_mono_bitmap::FontWeight::Bold };
    let s = match size { FontSize::Size16 => noto_sans_mono_bitmap::RasterHeight::Size16, FontSize::Size20 => noto_sans_mono_bitmap::RasterHeight::Size20, FontSize::Size24 => noto_sans_mono_bitmap::RasterHeight::Size24, FontSize::Size32 => noto_sans_mono_bitmap::RasterHeight::Size32 };
    noto_sans_mono_bitmap::get_raster_width(w, s)
}

/// How many character cells one tab advances to.
pub const TAB_SIZE: usize = 4;

/// A terminal rendering text into its window of a pixel buffer.
pub struct TerminalWriter {
    /// The window's pixel bytes.
    pub buffer: Vec<u8>,
    /// The window geometry.
    pub info: WindowInfo,
    /// The cursor column in pixels.
    pub x_pos: usize,
    /// The cursor row in pixels.
    pub y_pos: usize,
    /// The font size glyphs are rendered at.
    pub font_height: FontSize,
    /// The line height in pixels.
    pub line_height: usize,
    /// The weight glyphs are rendered in.
    pub font_weight: FontWeight,
    /// The text colour.
    pub foreground: Color,
    /// The colour behind glyphs.
    pub background: Color,
    /// The colour `clear` fills the window with.
    pub clear_color: Color,
}

impl TerminalWriter {
    /// The window's pixel bytes, row-major with the window's stride.
    pub open spec fn buffer_seq(self) -> Seq<u8> {
        self.buffer@
    }

    /// The window geometry.
    pub open spec fn window(self) -> WindowInfo {
        self.info
    }

    /// The cursor column in pixels.
    pub open spec fn x(self) -> usize {
        self.x_pos
    }

    /// The cursor row in pixels.
    pub open spec fn y(self) -> usize {
        self.y_pos
    }

    /// The current line height in pixels.
    pub open spec fn line_h(self) -> usize {
        self.line_height
    }

    /// Well-formedness: the buffer covers the window, the geometry is
    /// bounded, and the cursor stays inside it.
    pub open spec fn wf(self) -> bool {
        &&& self.buffer_seq().len() == self.window().stride * self.window().height
            * self.window().bytes_per_pixel
        &&& 1 <= self.window().width <= self.window().stride <= 65536
        &&& 64 <= self.window().height <= 65536
        &&& 1 <= self.window().bytes_per_pixel <= 16
        &&& (self.window().pixel_format == PixelFormat::Rgb || self.window().pixel_format
            == PixelFormat::Bgr) ==> self.window().bytes_per_pixel >= 3
        &&& self.buffer_seq().len() <= 0x1000_0000
        &&& self.x() <= self.window().width
        &&& 1 <= self.line_h() <= 64
        &&& self.y() + self.line_h() <= self.window().height
    }

    /// A terminal over a fresh zeroed buffer for the given window. The
    /// window must be tall enough for at least two lines of the default
    /// 24-pixel font.
    pub fn new(info: WindowInfo) -> (r: Self)
        requires
            1 <= info.width <= info.stride <= 65536,
            128 <= info.height <= 65536,
            1 <= info.bytes_per_pixel <= 16,
            (info.pixel_format == PixelFormat::Rgb || info.pixel_format == PixelFormat::Bgr)
                ==> info.bytes_per_pixel >= 3,
            info.stride * info.height * info.bytes_per_pixel <= 0x1000_0000,
        ensures
            r.wf(),
            r.window() == info,
            r.x() == 0,
            r.y() == 0,
    {
        proof {
            assert(info.stride * info.height * info.bytes_per_pixel >= 128 && info.stride
                * info.height <= info.stride * info.height * info.bytes_per_pixel && 0
                <= info.stride * info.height) by (nonlinear_arith)
                requires
                    1 <= info.stride,
                    128 <= info.height,
                    1 <= info.bytes_per_pixel,
            ;
        }
        let len = info.stride * info.height * info.bytes_per_pixel;
        let mut buffer: Vec<u8> = Vec::new();
        let mut i: usize = 0;
        while i < len
            invariant
                i <= len,
                buffer@.len() == i,
            decreases len - i,
        {
            buffer.push(0);
            i += 1;
        }
        TerminalWriter {
            buffer,
            info,
            x_pos: 0,
            y_pos: 0,
            font_height: FontSize::Size24,
            line_height: 24,
            font_weight: FontWeight::Regular,
            foreground: Color::white(),
            background: Color::black(),
            clear_color: Color::new(70, 60, 60),
        }
    }

    /// The byte offset of pixel `(x, y)` of the window in the buffer.
    pub open spec fn pixel_offset(self, x: int, y: int) -> int {
        (y * self.window().stride + x) * self.window().bytes_per_pixel
    }

    /// Writes one pixel of the window: colour channels in the window's
    /// byte order, or the luminance average for a single-byte format.
    pub fn write_pixel(&mut self, x: usize, y: usize, color: Color)
        requires
            old(self).wf(),
            x < old(self).window().width,
            y < old(self).window().height,
        ensures
            final(self).wf(),
            final(self).window() == old(self).window(),
            final(self).x() == old(self).x(),
            final(self).y() == old(self).y(),
            final(self).line_h() == old(self).line_h(),
            final(self).font_weight == old(self).font_weight,
            final(self).foreground == old(self).foreground,
            final(self).background == old(self).background,
            final(self).clear_color == old(self).clear_color,
            final(self).buffer_seq().len() == old(self).buffer_seq().len(),
            forall|j: int|
                0 <= j < old(self).buffer_seq().len() && !(old(self).pixel_offset(x as int, y as int)
                    <= j < old(self).pixel_offset(x as int, y as int) + pixel_write_width(
                    *old(self),
                )) ==> final(self).buffer_seq()[j] == old(self).buffer_seq()[j],
            pixel_shows(*final(self), x as int, y as int, color),
    {
        proof {
            lemma_pixel_offset_bounds(*self, x as int, y as int);
        }
        let pixel_offset = y * self.info.stride + x;
        let byte_offset = pixel_offset * self.info.bytes_per_pixel;
        match self.info.pixel_format {
            PixelFormat::Rgb => {
                self.buffer[byte_offset] = color.r;
                self.buffer[byte_offset + 1] = color.g;
                self.buffer[byte_offset + 2] = color.b;
            },
            PixelFormat::Bgr => {
                self.buffer[byte_offset] = color.b;
                self.buffer[byte_offset + 1] = color.g;
                self.buffer[byte_offset + 2] = color.r;
            },
            PixelFormat::Grayscale => {
                self.buffer[byte_offset] = ((color.r as u16 + color.g as u16 + color.b as u16) / 3)
                    as u8;
            },
        }
    }
}

impl TerminalWriter {
    /// Fills the whole window with the clear colour, homes the cursor, and
    /// optionally switches the font size.
    pub fn clear(&mut self, font_height: Option<FontSize>)
        requires
            old(self).wf(),
        ensures
            final(self).wf(),
            final(self).window() == old(self).window(),
            final(self).x() == 0,
            final(self).y() == 0,
            final(self).clear_color == old(self).clear_color,
            font_height matches Some(h) ==> final(self).line_h() == spec_font_val(h),
            forall|py: int, px: int|
                #![trigger pixel_shows(*final(self), px, py, old(self).clear_color)]
                0 <= py < old(self).window().height && 0 <= px < old(self).window().width
                    ==> pixel_shows(*final(self), px, py, old(self).clear_color),
    {
        self.x_pos = 0;
        self.y_pos = 0;
        let c = self.clear_color;
        let mut y: usize = 0;
        while y < self.info.height
            invariant
                self.wf(),
                self.window() == old(self).window(),
                self.x() == 0,
                self.y() == 0,
                self.clear_color == old(self).clear_color,
                self.line_h() == old(self).line_h(),
                c == old(self).clear_color,
                y <= self.info.height,
                forall|py: int, px: int|
                    #![trigger pixel_shows(*self, px, py, c)]
                    0 <= py < y && 0 <= px < self.window().width ==> pixel_shows(*self, px, py, c),
            decreases self.info.height - y,
        {
            let mut x: usize = 0;
            while x < self.info.width
                invariant
                    self.wf(),
                    self.window() == old(self).window(),
                    self.x() == 0,
                    self.y() == 0,
                    self.clear_color == old(self).clear_color,
                    self.line_h() == old(self).line_h(),
                    c == old(self).clear_color,
                    y < self.info.height,
                    x <= self.info.width,
                    forall|py: int, px: int|
                        #![trigger pixel_shows(*self, px, py, c)]
                        0 <= py < y && 0 <= px < self.window().width ==> pixel_shows(
                            *self,
                            px,
                            py,
                            c,
                        ),
                    forall|px: int|
                        #![trigger pixel_shows(*self, px, y as int, c)]
                        0 <= px < x ==> pixel_shows(*self, px, y as int, c),
                decreases self.info.width - x,
            {
                let ghost before = *self;
                self.write_pixel(x, y, c);
                proof {
                    assert forall|py: int, px: int|
                        #![trigger pixel_shows(*self, px, py, c)]
                        0 <= py < y && 0 <= px < self.window().width implies pixel_shows(
                        *self,
                        px,
                        py,
                        c,
                    ) by {
                        lemma_pixel_ranges_disjoint(before, px, py, x as int, y as int);
                        lemma_pixel_offset_bounds(before, px, py);
                        assert(pixel_shows(before, px, py, c));
                    }
                    assert forall|px: int|
                        #![trigger pixel_shows(*self, px, y as int, c)]
                        0 <= px < x implies pixel_shows(*self, px, y as int, c) by {
                        lemma_pixel_ranges_disjoint(before, px, y as int, x as int, y as int);
                        lemma_pixel_offset_bounds(before, px, y as int);
                        assert(pixel_shows(before, px, y as int, c));
                    }
                }
                x += 1;
            }
            y += 1;
        }
        let ghost done = *self;
        match font_height {
            Some(h) => {
                let v = font_val(h);
                self.font_height = h;
                self.line_height = v;
            },
            None => {},
        }
        proof {
            assert(self.buffer_seq() == done.buffer_seq());
            assert(self.window() == done.window());
            assert forall|py: int, px: int|
                #![trigger pixel_shows(*self, px, py, c)]
                0 <= py < self.window().height && 0 <= px < self.window().width implies
                pixel_shows(*self, px, py, c) by {
                assert(pixel_shows(done, px, py, c));
            }
        }
    }

    /// Returns the cursor to the start of the line.    /// Returns the cursor to the start of the line.
    pub fn carriage_return(&mut self)
        requires
            old(self).wf(),
        ensures
            final(self).wf(),
            *final(self) == (TerminalWriter { x_pos: 0usize, ..*old(self) }),
    {
        self.x_pos = 0;
    }

    /// Moves to the next line: the cursor returns to the left edge and
    /// drops one line height; past the bottom it wraps to the top and the
    /// clear colour rotates its channels to make the wrap-around visible.
    pub fn newline(&mut self)
        requires
            old(self).wf(),
        ensures
            final(self).wf(),
            final(self).window() == old(self).window(),
            final(self).x() == 0,
            final(self).line_h() == old(self).line_h(),
            old(self).y() + 2 * old(self).line_h() <= old(self).window().height ==> final(self).y()
                == old(self).y() + old(self).line_h() && final(self).clear_color == old(
                self,
            ).clear_color,
            old(self).y() + 2 * old(self).line_h() > old(self).window().height ==> final(self).y()
                == 0 && final(self).clear_color == (Color {
                r: old(self).clear_color.b,
                g: old(self).clear_color.r,
                b: old(self).clear_color.g,
            }),
    {
        self.y_pos = self.y_pos + self.line_height;
        self.x_pos = 0;
        if self.y_pos + self.line_height > self.info.height {
            self.y_pos = 0;
            self.clear_color = Color::new(self.clear_color.b, self.clear_color.r,
                self.clear_color.g);
        }
        let stripe_end = if self.y_pos + 2 * self.line_height < self.info.height {
            self.y_pos + 2 * self.line_height
        } else {
            self.info.height
        };
        let ghost snap = *self;
        let mut y = self.y_pos;
        while y < stripe_end
            invariant
                self.wf(),
                self.window() == snap.window(),
                self.x() == snap.x(),
                self.y() == snap.y(),
                self.line_h() == snap.line_h(),
                self.clear_color == snap.clear_color,
                stripe_end <= self.info.height,
            decreases stripe_end - y,
        {
            let mut x: usize = 0;
            while x < self.info.width
                invariant
                    self.wf(),
                    self.window() == snap.window(),
                    self.x() == snap.x(),
                    self.y() == snap.y(),
                    self.line_h() == snap.line_h(),
                    self.clear_color == snap.clear_color,
                    y < self.info.height,
                    x <= self.info.width,
                decreases self.info.width - x,
            {
                let color = if (x + y) % 2 == 0 {
                    self.clear_color
                } else {
                    Color::new(
                        self.clear_color.r / 2,
                        self.clear_color.g / 2,
                        self.clear_color.b / 2,
                    )
                };
                self.write_pixel(x, y, color);
                x += 1;
            }
            y += 1;
        }
    }

    /// Paints a glyph's intensity rows at the cursor position: every
    /// glyph byte that falls inside the window blends the background
    /// towards the foreground by its intensity, and every other window
    /// byte keeps its value.
    pub fn render_rows(&mut self, rows: &Vec<Vec<u8>>)
        requires
            old(self).wf(),
        ensures
            final(self).wf(),
            final(self).window() == old(self).window(),
            final(self).x() == old(self).x(),
            final(self).y() == old(self).y(),
            final(self).line_h() == old(self).line_h(),
            final(self).font_weight == old(self).font_weight,
            final(self).foreground == old(self).foreground,
            final(self).background == old(self).background,
            final(self).clear_color == old(self).clear_color,
            final(self).buffer_seq().len() == old(self).buffer_seq().len(),
            forall|gy: int, gx: int|
                #![trigger rows@[gy]@[gx]]
                0 <= gy < rows@.len() && 0 <= gx < rows@[gy]@.len() && old(self).x() + gx < old(
                    self,
                ).window().width && old(self).y() + gy < old(self).window().height ==> pixel_shows(
                    *final(self),
                    old(self).x() + gx,
                    old(self).y() + gy,
                    spec_blend(old(self).background, old(self).foreground, rows@[gy]@[gx]),
                ),
    {
        let fg = self.foreground;
        let bg = self.background;
        let x0 = self.x_pos;
        let y0 = self.y_pos;
        let mut gy: usize = 0;
        while gy < rows.len()
            invariant
                self.wf(),
                old(self).wf(),
                self.window() == old(self).window(),
                self.x() == old(self).x(),
                self.y() == old(self).y(),
                self.line_h() == old(self).line_h(),
                self.font_weight == old(self).font_weight,
                self.foreground == old(self).foreground,
                self.background == old(self).background,
                self.clear_color == old(self).clear_color,
                self.buffer_seq().len() == old(self).buffer_seq().len(),
                fg == old(self).foreground,
                bg == old(self).background,
                x0 == old(self).x(),
                y0 == old(self).y(),
                gy <= rows@.len(),
                forall|y2: int, x2: int|
                    #![trigger rows@[y2]@[x2]]
                    0 <= y2 < gy && 0 <= x2 < rows@[y2]@.len() && x0 + x2 < self.window().width
                        && y0 + y2 < self.window().height ==> pixel_shows(
                        *self,
                        x0 + x2,
                        y0 + y2,
                        spec_blend(bg, fg, rows@[y2]@[x2]),
                    ),
            decreases rows@.len() - gy,
        {
            let row = &rows[gy];
            let mut gx: usize = 0;
            while gx < row.len()
                invariant
                    self.wf(),
                    old(self).wf(),
                    self.window() == old(self).window(),
                    self.x() == old(self).x(),
                    self.y() == old(self).y(),
                    self.line_h() == old(self).line_h(),
                    self.font_weight == old(self).font_weight,
                    self.foreground == old(self).foreground,
                    self.background == old(self).background,
                    self.clear_color == old(self).clear_color,
                    self.buffer_seq().len() == old(self).buffer_seq().len(),
                    fg == old(self).foreground,
                    bg == old(self).background,
                    x0 == old(self).x(),
                    y0 == old(self).y(),
                    gy < rows@.len(),
                    row@ == rows@[gy as int]@,
                    gx <= row@.len(),
                    forall|y2: int, x2: int|
                        #![trigger rows@[y2]@[x2]]
                        0 <= y2 < gy && 0 <= x2 < rows@[y2]@.len() && x0 + x2 < self.window().width
                            && y0 + y2 < self.window().height ==> pixel_shows(
                            *self,
                            x0 + x2,
                            y0 + y2,
                            spec_blend(bg, fg, rows@[y2]@[x2]),
                        ),
                    forall|x2: int|
                        #![trigger row@[x2]]
                        0 <= x2 < gx && x0 + x2 < self.window().width && y0 + gy
                            < self.window().height ==> pixel_shows(
                            *self,
                            x0 + x2,
                            y0 + gy as int,
                            spec_blend(bg, fg, row@[x2]),
                        ),
                decreases row@.len() - gx,
            {
                if gx < self.info.width && gy < self.info.height && x0 + gx < self.info.width && y0
                    + gy < self.info.height {
                    let intensity = row[gx];
                    proof {
                        assert(intensity as u32 * 1024 / 255 <= 1024) by (nonlinear_arith)
                            requires
                                intensity <= 255,
                        ;
                    }
                    let color = bg.lerp(fg, intensity as u32 * 1024 / 255);
                    proof {
                        assert(color == spec_blend(bg, fg, intensity));
                    }
                    let ghost before = *self;
                    self.write_pixel(x0 + gx, y0 + gy, color);
                    proof {
                        assert forall|y2: int, x2: int|
                            #![trigger rows@[y2]@[x2]]
                            0 <= y2 < gy && 0 <= x2 < rows@[y2]@.len() && x0 + x2
                                < self.window().width && y0 + y2 < self.window().height implies
                            pixel_shows(
                            *self,
                            x0 + x2,
                            y0 + y2,
                            spec_blend(bg, fg, rows@[y2]@[x2]),
                        ) by {
                            lemma_pixel_ranges_disjoint(before, x0 + x2, y0 + y2, x0 + gx as int,
                                y0 + gy as int);
                            lemma_pixel_offset_bounds(before, x0 + x2, y0 + y2);
                        }
                        assert forall|x2: int|
                            #![trigger row@[x2]]
                            0 <= x2 < gx && x0 + x2 < self.window().width && y0 + gy
                                < self.window().height implies pixel_shows(
                            *self,
                            x0 + x2,
                            y0 + gy as int,
                            spec_blend(bg, fg, row@[x2]),
                        ) by {
                            lemma_pixel_ranges_disjoint(before, x0 + x2, y0 + gy as int,
                                x0 + gx as int, y0 + gy as int);
                            lemma_pixel_offset_bounds(before, x0 + x2, y0 + gy as int);
                        }
                    }
                }
                gx += 1;
            }
            gy += 1;
        }
    }

    /// Renders one glyph at the cursor and advances it, wrapping to a new
    /// line when the glyph would not fit. A character the font lacks is
    /// drawn as the replacement character; if even that is missing the
    /// cursor still advances.
    pub fn write_raw_char(&mut self, c: char)
        requires
            old(self).wf(),
        ensures
            final(self).wf(),
            final(self).window() == old(self).window(),
            final(self).line_h() == old(self).line_h(),
    {
        let char_width = raster_width(self.font_weight, self.font_height);
        if self.x_pos + char_width >= self.info.width {
            self.newline();
        }
        let rows = match get_raster_rows(c, self.font_weight, self.font_height) {
            Some(rows) => Some(rows),
            None => get_raster_rows('\u{fffd}', self.font_weight, self.font_height),
        };
        match rows {
            Some(rows) => {
                self.render_rows(&rows);
            },
            None => {},
        }
        if self.x_pos + char_width <= self.info.width {
            self.x_pos = self.x_pos + char_width;
        } else {
            self.x_pos = self.info.width;
        }
    }

    /// Advances to the next tab stop by writing spaces.
    pub fn tab(&mut self)
        requires
            old(self).wf(),
        ensures
            final(self).wf(),
            final(self).window() == old(self).window(),
            final(self).line_h() == old(self).line_h(),
    {
        let char_width = raster_width(self.font_weight, self.font_height);
        let new_spaces = if self.x_pos == 0 {
            4
        } else {
            let char_count = self.x_pos / char_width;
            let final_char_count = ((char_count + 1 + TAB_SIZE - 1) / TAB_SIZE) * TAB_SIZE;
            proof {
                let xp = self.x_pos as int;
                let cw = char_width as int;
                assert(0 <= xp / cw <= xp && ((xp / cw + 4) / 4) * 4 <= xp / cw + 4 && xp / cw
                    <= ((xp / cw + 4) / 4) * 4) by (nonlinear_arith)
                    requires
                        1 <= cw,
                        0 <= xp,
                ;
            }
            final_char_count - char_count
        };
        let mut i: usize = 0;
        while i < new_spaces
            invariant
                self.wf(),
                self.window() == old(self).window(),
                self.line_h() == old(self).line_h(),
                i <= new_spaces,
            decreases new_spaces - i,
        {
            self.write_raw_char(' ');
            i += 1;
        }
    }

    /// Renders one character: newline, carriage return and tab move the
    /// cursor; everything else is drawn.
    pub fn write_char(&mut self, c: char)
        requires
            old(self).wf(),
        ensures
            final(self).wf(),
            final(self).window() == old(self).window(),
            final(self).line_h() == old(self).line_h(),
    {
        if c == '\n' {
            self.newline();
        } else if c == '\r' {
            self.carriage_return();
        } else if c == '\t' {
            self.tab();
        } else {
            self.write_raw_char(c);
        }
    }

    /// Draws an image row by row from the cursor: `width` pixels per image
    /// row, clamped to the window, moving to fresh lines as rows fill.
    pub fn print_pixels(&mut self, width: usize, colors: &Vec<Color>)
        requires
            old(self).wf(),
            1 <= width,
        ensures
            final(self).wf(),
            final(self).window() == old(self).window(),
            final(self).line_h() == old(self).line_h(),
    {
        let x_offset = self.x_pos;
        let mut y_offset: usize = 0;
        let mut i: usize = 0;
        let n = colors.len();
        while i < n
            invariant
                self.wf(),
                self.window() == old(self).window(),
                self.line_h() == old(self).line_h(),
                n == colors@.len(),
                i <= n,
                x_offset <= self.window().width,
                y_offset < self.line_h(),
                1 <= width,
            decreases n - i,
        {
            let ghost i0 = i;
            let mut x: usize = 0;
            while x < width && i < n
                invariant
                    self.wf(),
                    self.window() == old(self).window(),
                    self.line_h() == old(self).line_h(),
                    n == colors@.len(),
                    i <= n,
                    x <= width,
                    i == i0 + x,
                    i0 < n,
                    x_offset <= self.window().width,
                    y_offset < self.line_h(),
                decreases width - x,
            {
                if x < self.info.width && x + x_offset < self.info.width && self.y_pos + y_offset
                    < self.info.height {
                    let px = x + x_offset;
                    let py = self.y_pos + y_offset;
                    let c = colors[i];
                    self.write_pixel(px, py, c);
                }
                i += 1;
                x += 1;
            }
            y_offset += 1;
            if y_offset >= self.line_height {
                self.newline();
                y_offset = 0;
            }
        }
        if y_offset != 0 {
            self.newline();
        }
    }
}

/// The back buffer the double-buffered terminal renders into: a zeroed
/// buffer covering the visible framebuffer.
pub fn switch_to_double_buffer(fb: &FbInfo) -> (r: Vec<u8>)
    requires
        fb.wf(),
    ensures
        r@.len() == if fb.byte_len <= fb.stride * fb.bytes_per_pixel * fb.height {
            fb.byte_len
        } else {
            (fb.stride * fb.bytes_per_pixel * fb.height) as usize
        },
        forall|j: int| 0 <= j < r@.len() ==> r@[j] == 0u8,
{
    proof {
        assert(fb.stride * fb.bytes_per_pixel * fb.height == fb.stride * fb.height
            * fb.bytes_per_pixel && 0 <= fb.stride * fb.bytes_per_pixel && fb.stride
            * fb.bytes_per_pixel <= fb.stride * fb.bytes_per_pixel * fb.height)
            by (nonlinear_arith)
            requires
                0 <= fb.stride,
                0 <= fb.bytes_per_pixel,
                1 <= fb.height,
        ;
    }
    let full = fb.stride * fb.bytes_per_pixel * fb.height;
    let size = if fb.byte_len <= full {
        fb.byte_len
    } else {
        full
    };
    let mut r: Vec<u8> = Vec::new();
    let mut i: usize = 0;
    while i < size
        invariant
            i <= size,
            r@.len() == i,
            forall|j: int| 0 <= j < i ==> r@[j] == 0u8,
        decreases size - i,
    {
        r.push(0);
        i += 1;
    }
    r
}

/// The framebuffer byte index of byte `j` of row `y`.
pub open spec fn row_byte_index(fb: FbInfo, y: int, j: int) -> int {
    y * fb.stride * fb.bytes_per_pixel + j
}

/// Copies the visible part of each back-buffer row to the front buffer:
/// `width * bytes_per_pixel` bytes per row, at the row's stride offset.
pub fn push_to_frame_buffer(back: &Vec<u8>, front: &mut Vec<u8>, fb: &FbInfo)
    requires
        fb.wf(),
        back@.len() >= fb.stride * fb.bytes_per_pixel * fb.height,
        old(front)@.len() >= fb.stride * fb.bytes_per_pixel * fb.height,
    ensures
        final(front)@.len() == old(front)@.len(),
        forall|y: int, j: int|
            #![trigger row_byte_index(*fb, y, j)]
            0 <= y < fb.height && 0 <= j < fb.width * fb.bytes_per_pixel ==> final(front)@[row_byte_index(*fb, y, j)] == back@[row_byte_index(*fb, y, j)],
{
    proof {
        assert(fb.width * fb.bytes_per_pixel <= fb.stride * fb.bytes_per_pixel && 0 <= fb.width
            * fb.bytes_per_pixel && fb.stride * fb.bytes_per_pixel <= 65536 * 16 && fb.stride
            * fb.bytes_per_pixel <= fb.stride * fb.bytes_per_pixel * fb.height)
            by (nonlinear_arith)
            requires
                0 <= fb.width <= fb.stride <= 65536,
                0 <= fb.bytes_per_pixel <= 16,
                1 <= fb.height,
        ;
    }
    let row_bytes = fb.width * fb.bytes_per_pixel;
    let stride_bytes = fb.stride * fb.bytes_per_pixel;
    let bl = back.len();
    let fl = front.len();
    let mut y: usize = 0;
    while y < fb.height
        invariant
            fb.wf(),
            row_bytes == fb.width * fb.bytes_per_pixel,
            stride_bytes == fb.stride * fb.bytes_per_pixel,
            row_bytes <= stride_bytes,
            bl == back@.len(),
            fl == front@.len(),
            back@.len() >= stride_bytes * fb.height,
            front@.len() == old(front)@.len(),
            front@.len() >= stride_bytes * fb.height,
            y <= fb.height,
            forall|y2: int, j: int|
                #![trigger front@[y2 * stride_bytes + j]]
                0 <= y2 < y && 0 <= j < row_bytes ==> front@[y2 * stride_bytes + j] == back@[y2
                    * stride_bytes + j],
        decreases fb.height - y,
    {
        proof {
            assert((y + 1) * stride_bytes <= fb.height * stride_bytes && y * stride_bytes
                + stride_bytes == (y + 1) * stride_bytes && fb.height * stride_bytes == stride_bytes
                * fb.height && 0 <= y * stride_bytes) by (nonlinear_arith)
                requires
                    0 <= y < fb.height,
                    0 <= stride_bytes,
            ;
        }
        let offset = y * stride_bytes;
        let mut j: usize = 0;
        while j < row_bytes
            invariant
                row_bytes <= stride_bytes,
                offset == y * stride_bytes,
                offset + stride_bytes <= stride_bytes * fb.height,
                bl == back@.len(),
                fl == front@.len(),
                back@.len() >= stride_bytes * fb.height,
                front@.len() == old(front)@.len(),
                front@.len() >= stride_bytes * fb.height,
                j <= row_bytes,
                forall|j2: int|
                    #![trigger front@[offset + j2]]
                    0 <= j2 < j ==> front@[offset + j2] == back@[offset + j2],
                forall|y2: int, j2: int|
                    #![trigger front@[y2 * stride_bytes + j2]]
                    0 <= y2 < y && 0 <= j2 < row_bytes ==> front@[y2 * stride_bytes + j2]
                        == back@[y2 * stride_bytes + j2],
                y < fb.height,
            decreases row_bytes - j,
        {
            let b = back[offset + j];
            front[offset + j] = b;
            proof {
                assert forall|y2: int, j2: int|
                    #![trigger front@[y2 * stride_bytes + j2]]
                    0 <= y2 < y && 0 <= j2 < row_bytes implies front@[y2 * stride_bytes + j2]
                    == back@[y2 * stride_bytes + j2] by {
                    assert((y2 + 1) * stride_bytes <= y * stride_bytes && y2 * stride_bytes + j2
                        < (y2 + 1) * stride_bytes && 0 <= y2 * stride_bytes) by (nonlinear_arith)
                        requires
                            0 <= y2 < y,
                            0 <= j2 < row_bytes,
                            row_bytes <= stride_bytes,
                            0 <= stride_bytes,
                    ;
                }
            }
            j += 1;
        }
        y += 1;
    }
    proof {
        assert forall|y2: int, j: int|
            #![trigger row_byte_index(*fb, y2, j)]
            0 <= y2 < fb.height && 0 <= j < fb.width * fb.bytes_per_pixel implies front@[y2 * (
        fb.stride * fb.bytes_per_pixel) + j] == back@[y2 * (fb.stride * fb.bytes_per_pixel)
            + j] by {
            assert(front@[y2 * stride_bytes + j] == back@[y2 * stride_bytes + j]);
        }
        assert forall|y2: int, j: int|
            #![trigger row_byte_index(*fb, y2, j)]
            0 <= y2 < fb.height && 0 <= j < fb.width * fb.bytes_per_pixel implies front@[
        row_byte_index(*fb, y2, j)] == back@[row_byte_index(*fb, y2, j)] by {
            assert(y2 * (fb.stride * fb.bytes_per_pixel) == y2 * fb.stride * fb.bytes_per_pixel)
                by (nonlinear_arith);
            assert(front@[y2 * (fb.stride * fb.bytes_per_pixel) + j] == back@[y2 * (fb.stride
                * fb.bytes_per_pixel) + j]);
        }
    }
}

/// Byte `c` of pixel `(x, y)` of the window.
pub open spec fn pixel_byte(t: TerminalWriter, x: int, y: int, c: int) -> u8 {
    t.buffer_seq()[t.pixel_offset(x, y) + c]
}

/// How many bytes one pixel write touches: the three colour channels, or
/// the single luminance byte.
pub open spec fn pixel_write_width(t: TerminalWriter) -> int {
    if t.window().pixel_format == PixelFormat::Grayscale {
        1
    } else {
        3
    }
}

/// Whether pixel `(x, y)` of the window shows `color`, in the window's
/// byte order.
pub open spec fn pixel_shows(t: TerminalWriter, x: int, y: int, color: Color) -> bool {
    match t.window().pixel_format {
        PixelFormat::Rgb => pixel_byte(t, x, y, 0) == color.r && pixel_byte(t, x, y, 1) == color.g
            && pixel_byte(t, x, y, 2) == color.b,
        PixelFormat::Bgr => pixel_byte(t, x, y, 0) == color.b && pixel_byte(t, x, y, 1) == color.g
            && pixel_byte(t, x, y, 2) == color.r,
        PixelFormat::Grayscale => pixel_byte(t, x, y, 0) == ((color.r + color.g + color.b)
            / 3) as u8,
    }
}

/// The colour a glyph byte of the given intensity blends to, between the
/// background and the foreground.
pub open spec fn spec_blend(bg: Color, fg: Color, intensity: u8) -> Color {
    Color {
        r: spec_lerp_channel(bg.r, fg.r, ((intensity * 1024) / 255) as u32) as u8,
        g: spec_lerp_channel(bg.g, fg.g, ((intensity * 1024) / 255) as u32) as u8,
        b: spec_lerp_channel(bg.b, fg.b, ((intensity * 1024) / 255) as u32) as u8,
    }
}

/// Distinct pixels of the window occupy disjoint byte ranges.
proof fn lemma_pixel_ranges_disjoint(t: TerminalWriter, x1: int, y1: int, x2: int, y2: int)
    requires
        t.wf(),
        0 <= x1 < t.window().width,
        0 <= y1 < t.window().height,
        0 <= x2 < t.window().width,
        0 <= y2 < t.window().height,
        !(x1 == x2 && y1 == y2),
    ensures
        t.pixel_offset(x1, y1) + pixel_write_width(t) <= t.pixel_offset(x2, y2) || t.pixel_offset(
            x2,
            y2,
        ) + pixel_write_width(t) <= t.pixel_offset(x1, y1),
{
    let w = t.window();
    assert((y1 * w.stride + x1 != y2 * w.stride + x2) && ((y1 * w.stride + x1) * w.bytes_per_pixel
        + w.bytes_per_pixel <= (y2 * w.stride + x2) * w.bytes_per_pixel || (y2 * w.stride + x2)
        * w.bytes_per_pixel + w.bytes_per_pixel <= (y1 * w.stride + x1) * w.bytes_per_pixel))
        by (nonlinear_arith)
        requires
            0 <= x1 < w.width,
            0 <= y1 < w.height,
            0 <= x2 < w.width,
            0 <= y2 < w.height,
            w.width <= w.stride,
            1 <= w.bytes_per_pixel,
            !(x1 == x2 && y1 == y2),
    ;
}

proof fn lemma_pixel_offset_bounds(t: TerminalWriter, x: int, y: int)
    requires
        t.wf(),
        0 <= x < t.window().width,
        0 <= y < t.window().height,
    ensures
        0 <= t.pixel_offset(x, y),
        t.pixel_offset(x, y) + t.window().bytes_per_pixel <= t.buffer_seq().len(),
        0 <= y * t.window().stride + x <= t.buffer_seq().len(),
{
    let w = t.window();
    assert((y * w.stride + x) * w.bytes_per_pixel + w.bytes_per_pixel <= w.stride * w.height
        * w.bytes_per_pixel && 0 <= (y * w.stride + x) * w.bytes_per_pixel && y * w.stride + x <= (
    y * w.stride + x) * w.bytes_per_pixel && 0 <= y * w.stride + x) by (nonlinear_arith)
        requires
            0 <= x < w.width,
            0 <= y < w.height,
            w.width <= w.stride,
            1 <= w.bytes_per_pixel,
            1 <= w.stride,
    ;
}

} // verus!
