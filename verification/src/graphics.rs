//! Pixel drawing over the frame buffer the bootloader hands off. The
//! mapped frame-buffer memory is modelled as owned bytes, four per pixel,
//! `pixel_per_scan_line` pixels per row; a pixel's colour bytes are laid
//! out by the pixel format. Rendering is a draw-call sink for the rest of
//! the system: the contracts here guard bounds and the byte layout.

use vstd::prelude::*;

verus! {

/// A colour in 8-bit-per-channel form.
#[derive(Clone, Copy, PartialEq, Eq, Structural, Debug)]
pub struct PixelColor {
    pub red: u8,
    pub green: u8,
    pub blue: u8,
}

impl PixelColor {
    pub fn new(r: u8, g: u8, b: u8) -> (c: PixelColor)
        ensures
            c == (PixelColor { red: r, green: g, blue: b }),
    {
        PixelColor { red: r, green: g, blue: b }
    }

    pub fn black() -> (c: PixelColor)
        ensures
            c == (PixelColor { red: 0, green: 0, blue: 0 }),
    {
        PixelColor { red: 0, green: 0, blue: 0 }
    }

    pub fn white() -> (c: PixelColor)
        ensures
            c == (PixelColor { red: 255, green: 255, blue: 255 }),
    {
        PixelColor { red: 255, green: 255, blue: 255 }
    }
}

/// How the four bytes of a pixel hold the colour channels; the fourth byte
/// is reserved in both forms.
#[derive(Clone, Copy, PartialEq, Eq, Structural, Debug)]
pub enum PixelFormat {
    PixelRGBResv8BitPerColor,
    PixelBGRResv8BitPerColor,
}

/// The first three bytes a pixel of `color` takes in `format`.
pub open spec fn spec_pixel_bytes(color: PixelColor, format: PixelFormat) -> (u8, u8, u8) {
    match format {
        PixelFormat::PixelRGBResv8BitPerColor => (color.red, color.green, color.blue),
        PixelFormat::PixelBGRResv8BitPerColor => (color.blue, color.green, color.red),
    }
}

/// The frame buffer: its pixel memory and the geometry the bootloader
/// reported. Four bytes per pixel, rows `pixel_per_scan_line` pixels apart,
/// of which the leftmost `horizontal_resolution` are visible.
pub struct FrameBuffer {
    pub pixels: Vec<u8>,
    pub pixel_per_scan_line: usize,
    pub horizontal_resolution: usize,
    pub vertical_resolution: usize,
    pub pixel_format: PixelFormat,
}

impl FrameBuffer {
    /// The memory covers the reported geometry.
    pub open spec fn wf(self) -> bool {
        &&& self.pixels@.len() == 4 * self.pixel_per_scan_line * self.vertical_resolution
        &&& self.horizontal_resolution <= self.pixel_per_scan_line
    }

    /// A zero-size placeholder, used before the bootloader's hand-off is
    /// consumed.
    pub fn uninitialized_default() -> (r: FrameBuffer)
        ensures
            r.wf(),
            r.horizontal_resolution == 0,
            r.vertical_resolution == 0,
    {
        FrameBuffer {
            pixels: Vec::new(),
            pixel_per_scan_line: 0,
            horizontal_resolution: 0,
            vertical_resolution: 0,
            pixel_format: PixelFormat::PixelRGBResv8BitPerColor,
        }
    }

    /// A frame buffer over fresh zeroed memory of the given geometry.
    pub fn new(
        pixel_per_scan_line: usize,
        horizontal_resolution: usize,
        vertical_resolution: usize,
        pixel_format: PixelFormat,
    ) -> (r: FrameBuffer)
        requires
            horizontal_resolution <= pixel_per_scan_line,
            4 * pixel_per_scan_line * vertical_resolution <= usize::MAX,
        ensures
            r.wf(),
            r.pixel_per_scan_line == pixel_per_scan_line,
            r.horizontal_resolution == horizontal_resolution,
            r.vertical_resolution == vertical_resolution,
            r.pixel_format == pixel_format,
    {
        proof {
            assert(4 * pixel_per_scan_line * vertical_resolution == 4 * (pixel_per_scan_line
                * vertical_resolution)) by (nonlinear_arith);
        }
        let stride_bytes = pixel_per_scan_line.checked_mul(vertical_resolution);
        let len: usize = match stride_bytes {
            Some(n) => 4 * n,
            None => vstd::pervasive::unreached(),
        };
        let mut pixels: Vec<u8> = Vec::new();
        let mut i: usize = 0;
        while i < len
            invariant
                i <= len,
                pixels@.len() == i,
            decreases len - i,
        {
            pixels.push(0);
            i = i + 1;
        }
        FrameBuffer {
            pixels,
            pixel_per_scan_line,
            horizontal_resolution,
            vertical_resolution,
            pixel_format,
        }
    }

    pub fn h(&self) -> (r: usize)
        ensures
            r == self.horizontal_resolution,
    {
        self.horizontal_resolution
    }

    pub fn v(&self) -> (r: usize)
        ensures
            r == self.vertical_resolution,
    {
        self.vertical_resolution
    }

    pub fn pixel_format(&self) -> (r: &PixelFormat)
        ensures
            *r == self.pixel_format,
    {
        &self.pixel_format
    }
}

/// Anything pixels can be drawn on. `spec_width`/`spec_height` give the
/// drawable area; drawing never changes the geometry. `spec_buffer` is the
/// pixel memory behind the writer, four bytes per pixel and
/// `spec_stride` pixels per row; `spec_draw_bytes` is the byte order this
/// writer stores a colour in, so `draw_pixel`'s contract pins the exact
/// bytes written and that nothing else moves.
pub trait PixelWriter: Sized {
    spec fn wf(&self) -> bool;

    spec fn spec_width(&self) -> int;

    spec fn spec_height(&self) -> int;

    /// The pixel memory drawing writes into.
    spec fn spec_buffer(&self) -> Seq<u8>;

    /// Pixels per memory row, visible or not.
    spec fn spec_stride(&self) -> int;

    /// The three bytes one pixel of `color` takes under this writer.
    spec fn spec_draw_bytes(&self, color: PixelColor) -> (u8, u8, u8);

    fn width(&self) -> (r: usize)
        requires
            self.wf(),
        ensures
            r == self.spec_width(),
    ;

    fn height(&self) -> (r: usize)
        requires
            self.wf(),
        ensures
            r == self.spec_height(),
    ;

    fn draw_pixel(&mut self, x: usize, y: usize, color: &PixelColor)
        requires
            old(self).wf(),
            x < old(self).spec_width(),
            y < old(self).spec_height(),
        ensures
            final(self).wf(),
            final(self).spec_width() == old(self).spec_width(),
            final(self).spec_height() == old(self).spec_height(),
            final(self).spec_stride() == old(self).spec_stride(),
            forall|c: PixelColor| #[trigger]
                final(self).spec_draw_bytes(c) == old(self).spec_draw_bytes(c),
            ({
                let base = 4 * (old(self).spec_stride() * y + x);
                let bytes = old(self).spec_draw_bytes(*color);
                final(self).spec_buffer() == old(self).spec_buffer().update(
                    base,
                    bytes.0,
                ).update(base + 1, bytes.1).update(base + 2, bytes.2)
            }),
    ;

    /// Fills the rectangle at `pos` of extent `size`.
    fn fill_rect(&mut self, pos: Vector2D<usize>, size: Vector2D<usize>, color: &PixelColor)
        requires
            old(self).wf(),
            old(self).spec_width() <= usize::MAX,
            old(self).spec_height() <= usize::MAX,
            pos.x + size.x <= old(self).spec_width(),
            pos.y + size.y <= old(self).spec_height(),
        ensures
            final(self).wf(),
            final(self).spec_width() == old(self).spec_width(),
            final(self).spec_height() == old(self).spec_height(),
    {
        let mut dy: usize = 0;
        while dy < size.y
            invariant
                dy <= size.y,
                self.wf(),
                self.spec_width() == old(self).spec_width(),
                self.spec_height() == old(self).spec_height(),
                self.spec_width() <= usize::MAX,
                self.spec_height() <= usize::MAX,
                pos.x + size.x <= self.spec_width(),
                pos.y + size.y <= self.spec_height(),
            decreases size.y - dy,
        {
            let mut dx: usize = 0;
            while dx < size.x
                invariant
                    dx <= size.x,
                    dy < size.y,
                    self.wf(),
                    self.spec_width() == old(self).spec_width(),
                    self.spec_height() == old(self).spec_height(),
                    self.spec_width() <= usize::MAX,
                    self.spec_height() <= usize::MAX,
                    pos.x + size.x <= self.spec_width(),
                    pos.y + size.y <= self.spec_height(),
                decreases size.x - dx,
            {
                self.draw_pixel(pos.x + dx, pos.y + dy, color);
                dx = dx + 1;
            }
            dy = dy + 1;
        }
    }

    /// Draws the rectangle's outline: its top and bottom edges, then its
    /// left and right edges.
    fn draw_rect(&mut self, pos: Vector2D<usize>, size: Vector2D<usize>, color: &PixelColor)
        requires
            old(self).wf(),
            old(self).spec_width() <= usize::MAX,
            old(self).spec_height() <= usize::MAX,
            pos.x + size.x < old(self).spec_width(),
            pos.y + size.y < old(self).spec_height(),
        ensures
            final(self).wf(),
            final(self).spec_width() == old(self).spec_width(),
            final(self).spec_height() == old(self).spec_height(),
    {
        let mut dx: usize = 0;
        while dx < size.x
            invariant
                dx <= size.x,
                self.wf(),
                self.spec_width() == old(self).spec_width(),
                self.spec_height() == old(self).spec_height(),
                self.spec_width() <= usize::MAX,
                self.spec_height() <= usize::MAX,
                pos.x + size.x < self.spec_width(),
                pos.y + size.y < self.spec_height(),
            decreases size.x - dx,
        {
            self.draw_pixel(pos.x + dx, pos.y, color);
            self.draw_pixel(pos.x + dx, pos.y + size.y, color);
            dx = dx + 1;
        }
        let mut dy: usize = 0;
        while dy < size.y
            invariant
                dy <= size.y,
                self.wf(),
                self.spec_width() == old(self).spec_width(),
                self.spec_height() == old(self).spec_height(),
                self.spec_width() <= usize::MAX,
                self.spec_height() <= usize::MAX,
                pos.x + size.x < self.spec_width(),
                pos.y + size.y < self.spec_height(),
            decreases size.y - dy,
        {
            self.draw_pixel(pos.x, pos.y + dy, color);
            self.draw_pixel(pos.x + size.x, pos.y + dy, color);
            dy = dy + 1;
        }
    }
}

impl PixelWriter for FrameBuffer {
    open spec fn wf(&self) -> bool {
        FrameBuffer::wf(*self)
    }

    open spec fn spec_width(&self) -> int {
        self.horizontal_resolution as int
    }

    open spec fn spec_height(&self) -> int {
        self.vertical_resolution as int
    }

    open spec fn spec_buffer(&self) -> Seq<u8> {
        self.pixels@
    }

    open spec fn spec_stride(&self) -> int {
        self.pixel_per_scan_line as int
    }

    /// The buffer's own pixel format decides the byte order.
    open spec fn spec_draw_bytes(&self, color: PixelColor) -> (u8, u8, u8) {
        spec_pixel_bytes(color, self.pixel_format)
    }

    fn width(&self) -> usize {
        self.horizontal_resolution
    }

    fn height(&self) -> usize {
        self.vertical_resolution
    }

    /// Writes the pixel's three colour bytes in the buffer's own format.
    fn draw_pixel(&mut self, x: usize, y: usize, color: &PixelColor) {
        let len = self.pixels.len();
        proof {
            assert(self.pixel_per_scan_line * y + x < self.pixel_per_scan_line
                * self.vertical_resolution) by (nonlinear_arith)
                requires
                    y < self.vertical_resolution,
                    x < self.horizontal_resolution,
                    self.horizontal_resolution <= self.pixel_per_scan_line,
            ;
            assert(4 * (self.pixel_per_scan_line * y + x) + 3 < 4 * (self.pixel_per_scan_line
                * self.vertical_resolution)) by (nonlinear_arith)
                requires
                    self.pixel_per_scan_line * y + x < self.pixel_per_scan_line
                        * self.vertical_resolution,
            ;
            assert(4 * self.pixel_per_scan_line * self.vertical_resolution == 4 * (
            self.pixel_per_scan_line * self.vertical_resolution)) by (nonlinear_arith);
        }
        let pixel_position = self.pixel_per_scan_line * y + x;
        let base = 4 * pixel_position;
        let bytes = match self.pixel_format {
            PixelFormat::PixelRGBResv8BitPerColor => (color.red, color.green, color.blue),
            PixelFormat::PixelBGRResv8BitPerColor => (color.blue, color.green, color.red),
        };
        self.pixels.set(base, bytes.0);
        self.pixels.set(base + 1, bytes.1);
        self.pixels.set(base + 2, bytes.2);
        proof {
            assert(self.spec_stride() == old(self).spec_stride());
            assert forall|c: PixelColor| #[trigger] self.spec_draw_bytes(c) == old(
                self,
            ).spec_draw_bytes(c) by {
                assert(self.pixel_format == old(self).pixel_format);
            }
            assert(bytes == old(self).spec_draw_bytes(*color));
            assert(base as int == 4 * (old(self).spec_stride() * y + x));
            assert(self.spec_buffer() == old(self).spec_buffer().update(
                base as int,
                bytes.0,
            ).update(base as int + 1, bytes.1).update(base as int + 2, bytes.2));
        }
    }
}

/// A writer that stores channels in RGB order regardless of the frame
/// buffer's reported format.
pub struct RGBResv8BitPerColorPixelWriter {
    pub frame_buffer: FrameBuffer,
}

impl RGBResv8BitPerColorPixelWriter {
    pub fn new(frame_buffer: FrameBuffer) -> (r: RGBResv8BitPerColorPixelWriter)
        ensures
            r.frame_buffer == frame_buffer,
    {
        RGBResv8BitPerColorPixelWriter { frame_buffer }
    }
}

impl PixelWriter for RGBResv8BitPerColorPixelWriter {
    open spec fn wf(&self) -> bool {
        self.frame_buffer.wf()
    }

    open spec fn spec_width(&self) -> int {
        self.frame_buffer.horizontal_resolution as int
    }

    open spec fn spec_height(&self) -> int {
        self.frame_buffer.vertical_resolution as int
    }

    open spec fn spec_buffer(&self) -> Seq<u8> {
        self.frame_buffer.pixels@
    }

    open spec fn spec_stride(&self) -> int {
        self.frame_buffer.pixel_per_scan_line as int
    }

    /// Red, green, blue, whatever format the buffer reports.
    open spec fn spec_draw_bytes(&self, color: PixelColor) -> (u8, u8, u8) {
        (color.red, color.green, color.blue)
    }

    fn width(&self) -> usize {
        self.frame_buffer.horizontal_resolution
    }

    fn height(&self) -> usize {
        self.frame_buffer.vertical_resolution
    }

    fn draw_pixel(&mut self, x: usize, y: usize, color: &PixelColor) {
        let fb = &mut self.frame_buffer;
        let len = fb.pixels.len();
        proof {
            assert(fb.pixel_per_scan_line * y + x < fb.pixel_per_scan_line
                * fb.vertical_resolution) by (nonlinear_arith)
                requires
                    y < fb.vertical_resolution,
                    x < fb.horizontal_resolution,
                    fb.horizontal_resolution <= fb.pixel_per_scan_line,
            ;
            assert(4 * (fb.pixel_per_scan_line * y + x) + 3 < 4 * (fb.pixel_per_scan_line
                * fb.vertical_resolution)) by (nonlinear_arith)
                requires
                    fb.pixel_per_scan_line * y + x < fb.pixel_per_scan_line
                        * fb.vertical_resolution,
            ;
            assert(4 * fb.pixel_per_scan_line * fb.vertical_resolution == 4 * (
            fb.pixel_per_scan_line * fb.vertical_resolution)) by (nonlinear_arith);
        }
        let pixel_position = fb.pixel_per_scan_line * y + x;
        let base = 4 * pixel_position;
        fb.pixels.set(base, color.red);
        fb.pixels.set(base + 1, color.green);
        fb.pixels.set(base + 2, color.blue);
        proof {
            assert(self.spec_stride() == old(self).spec_stride());
            assert forall|c: PixelColor| #[trigger] self.spec_draw_bytes(c) == old(
                self,
            ).spec_draw_bytes(c) by {
            }
            assert(base as int == 4 * (old(self).spec_stride() * y + x));
            assert(self.spec_buffer() == old(self).spec_buffer().update(
                base as int,
                color.red,
            ).update(base as int + 1, color.green).update(base as int + 2, color.blue));
        }
    }
}

/// A writer that stores channels in BGR order regardless of the frame
/// buffer's reported format.
pub struct BGRResv8BitPerColorPixelWriter {
    pub frame_buffer: FrameBuffer,
}

impl BGRResv8BitPerColorPixelWriter {
    pub fn new(frame_buffer: FrameBuffer) -> (r: BGRResv8BitPerColorPixelWriter)
        ensures
            r.frame_buffer == frame_buffer,
    {
        BGRResv8BitPerColorPixelWriter { frame_buffer }
    }
}

impl PixelWriter for BGRResv8BitPerColorPixelWriter {
    open spec fn wf(&self) -> bool {
        self.frame_buffer.wf()
    }

    open spec fn spec_width(&self) -> int {
        self.frame_buffer.horizontal_resolution as int
    }

    open spec fn spec_height(&self) -> int {
        self.frame_buffer.vertical_resolution as int
    }

    open spec fn spec_buffer(&self) -> Seq<u8> {
        self.frame_buffer.pixels@
    }

    open spec fn spec_stride(&self) -> int {
        self.frame_buffer.pixel_per_scan_line as int
    }

    /// Blue, green, red, whatever format the buffer reports.
    open spec fn spec_draw_bytes(&self, color: PixelColor) -> (u8, u8, u8) {
        (color.blue, color.green, color.red)
    }

    fn width(&self) -> usize {
        self.frame_buffer.horizontal_resolution
    }

    fn height(&self) -> usize {
        self.frame_buffer.vertical_resolution
    }

    fn draw_pixel(&mut self, x: usize, y: usize, color: &PixelColor) {
        let fb = &mut self.frame_buffer;
        let len = fb.pixels.len();
        proof {
            assert(fb.pixel_per_scan_line * y + x < fb.pixel_per_scan_line
                * fb.vertical_resolution) by (nonlinear_arith)
                requires
                    y < fb.vertical_resolution,
                    x < fb.horizontal_resolution,
                    fb.horizontal_resolution <= fb.pixel_per_scan_line,
            ;
            assert(4 * (fb.pixel_per_scan_line * y + x) + 3 < 4 * (fb.pixel_per_scan_line
                * fb.vertical_resolution)) by (nonlinear_arith)
                requires
                    fb.pixel_per_scan_line * y + x < fb.pixel_per_scan_line
                        * fb.vertical_resolution,
            ;
            assert(4 * fb.pixel_per_scan_line * fb.vertical_resolution == 4 * (
            fb.pixel_per_scan_line * fb.vertical_resolution)) by (nonlinear_arith);
        }
        let pixel_position = fb.pixel_per_scan_line * y + x;
        let base = 4 * pixel_position;
        fb.pixels.set(base, color.blue);
        fb.pixels.set(base + 1, color.green);
        fb.pixels.set(base + 2, color.red);
        proof {
            assert(self.spec_stride() == old(self).spec_stride());
            assert forall|c: PixelColor| #[trigger] self.spec_draw_bytes(c) == old(
                self,
            ).spec_draw_bytes(c) by {
            }
            assert(base as int == 4 * (old(self).spec_stride() * y + x));
            assert(self.spec_buffer() == old(self).spec_buffer().update(
                base as int,
                color.blue,
            ).update(base as int + 1, color.green).update(base as int + 2, color.red));
        }
    }
}

/// A glyph source: fixed-size characters drawn pixel by pixel.
pub trait Font: Sized {
    /// The cell a character occupies, including spacing.
    spec fn spec_char_size(&self) -> (int, int);

    fn char_size(&self) -> (r: (usize, usize))
        ensures
            r.0 == self.spec_char_size().0,
            r.1 == self.spec_char_size().1,
    ;

    /// Draws one character's glyph with its top-left corner at (x, y).
    /// Glyphs are 8 pixels wide and 16 tall.
    fn write_ascii<W: PixelWriter>(
        &self,
        writer: &mut W,
        x: usize,
        y: usize,
        c: char,
        color: &PixelColor,
    )
        requires
            old(writer).wf(),
            old(writer).spec_width() <= usize::MAX,
            old(writer).spec_height() <= usize::MAX,
            x + 8 <= old(writer).spec_width(),
            y + 16 <= old(writer).spec_height(),
        ensures
            final(writer).wf(),
            final(writer).spec_width() == old(writer).spec_width(),
            final(writer).spec_height() == old(writer).spec_height(),
    ;

    /// Draws a string, characters 8 pixels apart.
    fn write_string<W: PixelWriter>(
        &self,
        writer: &mut W,
        x: usize,
        y: usize,
        s: &str,
        color: &PixelColor,
    )
        requires
            old(writer).wf(),
            old(writer).spec_width() <= usize::MAX,
            old(writer).spec_height() <= usize::MAX,
            x + 8 * s@.len() <= old(writer).spec_width(),
            y + 16 <= old(writer).spec_height(),
        ensures
            final(writer).wf(),
            final(writer).spec_width() == old(writer).spec_width(),
            final(writer).spec_height() == old(writer).spec_height(),
    {
        let len = s.unicode_len();
        let mut i: usize = 0;
        while i < len
            invariant
                i <= len,
                len == s@.len(),
                writer.wf(),
                writer.spec_width() == old(writer).spec_width(),
                writer.spec_height() == old(writer).spec_height(),
                writer.spec_width() <= usize::MAX,
                writer.spec_height() <= usize::MAX,
                x + 8 * len <= writer.spec_width(),
                y + 16 <= writer.spec_height(),
            decreases len - i,
        {
            let c = s.get_char(i);
            self.write_ascii(writer, i * 8 + x, y, c, color);
            i = i + 1;
        }
    }
}

/// The bundled bitmap font: 16 bytes per glyph, one byte per row, the
/// leftmost pixel in the most significant bit. The glyph table is supplied
/// at construction; an empty table draws nothing.
pub struct ShinonomeFont {
    pub font: Vec<u8>,
}

impl ShinonomeFont {
    /// A font with no glyph data: every character draws as blank.
    pub fn new() -> (r: ShinonomeFont)
        ensures
            r.font@.len() == 0,
    {
        ShinonomeFont { font: Vec::new() }
    }

    /// A font over the given glyph table, 16 bytes per character code.
    pub fn with_glyphs(font: Vec<u8>) -> (r: ShinonomeFont)
        ensures
            r.font == font,
    {
        ShinonomeFont { font }
    }

    /// Draws a string, characters 8 pixels apart.
    pub fn write_string<W: PixelWriter>(
        &self,
        writer: &mut W,
        x: usize,
        y: usize,
        s: &str,
        color: &PixelColor,
    )
        requires
            old(writer).wf(),
            old(writer).spec_width() <= usize::MAX,
            old(writer).spec_height() <= usize::MAX,
            x + 8 * s@.len() <= old(writer).spec_width(),
            y + 16 <= old(writer).spec_height(),
        ensures
            final(writer).wf(),
            final(writer).spec_width() == old(writer).spec_width(),
            final(writer).spec_height() == old(writer).spec_height(),
    {
        Font::write_string(self, writer, x, y, s, color)
    }
}

impl Font for ShinonomeFont {
    /// An 8x16 glyph with 2 pixels of spacing on each axis.
    open spec fn spec_char_size(&self) -> (int, int) {
        (10, 18)
    }

    fn char_size(&self) -> (usize, usize) {
        (8 + 2, 16 + 2)
    }

    fn write_ascii<W: PixelWriter>(
        &self,
        writer: &mut W,
        x: usize,
        y: usize,
        c: char,
        color: &PixelColor,
    ) {
        let code = c as u32;
        if code >= 128 {
            return ;
        }
        let index = 16 * (code as usize);
        // a glyph table too short for this character draws nothing
        if index + 16 > self.font.len() {
            return ;
        }
        let mut dy: usize = 0;
        while dy < 16
            invariant
                dy <= 16,
                index + 16 <= self.font@.len(),
                self.font@.len() <= usize::MAX,
                writer.wf(),
                writer.spec_width() == old(writer).spec_width(),
                writer.spec_height() == old(writer).spec_height(),
                writer.spec_width() <= usize::MAX,
                writer.spec_height() <= usize::MAX,
                x + 8 <= writer.spec_width(),
                y + 16 <= writer.spec_height(),
            decreases 16 - dy,
        {
            let row = self.font[index + dy];
            let mut dx: usize = 0;
            while dx < 8
                invariant
                    dx <= 8,
                    dy < 16,
                    writer.wf(),
                    writer.spec_width() == old(writer).spec_width(),
                    writer.spec_height() == old(writer).spec_height(),
                    writer.spec_width() <= usize::MAX,
                    writer.spec_height() <= usize::MAX,
                    x + 8 <= writer.spec_width(),
                    y + 16 <= writer.spec_height(),
                decreases 8 - dx,
            {
                if ((row << (dx as u8)) & 0x80) > 0 {
                    writer.draw_pixel(x + dx, y + dy, color);
                }
                dx = dx + 1;
            }
            dy = dy + 1;
        }
    }
}

/// A two-component vector, used for positions and extents.
#[derive(Clone, Copy, PartialEq, Eq, Structural, Debug)]
pub struct Vector2D<T> {
    pub x: T,
    pub y: T,
}

impl<T: Copy> Vector2D<T> {
    pub fn new(x: T, y: T) -> (r: Vector2D<T>)
        ensures
            r == (Vector2D { x, y }),
    {
        Vector2D { x, y }
    }

    pub fn x(&self) -> (r: T)
        ensures
            r == self.x,
    {
        self.x
    }

    pub fn y(&self) -> (r: T)
        ensures
            r == self.y,
    {
        self.y
    }
}

} // verus!
