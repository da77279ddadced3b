use potatos::graphics::{
    BGRResv8BitPerColorPixelWriter, Font, FrameBuffer, PixelColor, PixelFormat, PixelWriter,
    RGBResv8BitPerColorPixelWriter, ShinonomeFont, Vector2D,
};

fn small_fb(format: PixelFormat) -> FrameBuffer {
    // stride 8 pixels, visible 6x4
    FrameBuffer::new(8, 6, 4, format)
}

fn pixel_bytes(fb: &FrameBuffer, x: usize, y: usize) -> (u8, u8, u8) {
    let base = 4 * (fb.pixel_per_scan_line * y + x);
    (fb.pixels[base], fb.pixels[base + 1], fb.pixels[base + 2])
}

#[test]
fn frame_buffer_writes_bytes_in_its_own_format() {
    let mut fb = small_fb(PixelFormat::PixelRGBResv8BitPerColor);
    fb.draw_pixel(2, 1, &PixelColor::new(10, 20, 30));
    assert_eq!(pixel_bytes(&fb, 2, 1), (10, 20, 30));

    let mut fb = small_fb(PixelFormat::PixelBGRResv8BitPerColor);
    fb.draw_pixel(2, 1, &PixelColor::new(10, 20, 30));
    assert_eq!(pixel_bytes(&fb, 2, 1), (30, 20, 10));
}

#[test]
fn fixed_order_writers_ignore_the_reported_format() {
    let mut w = RGBResv8BitPerColorPixelWriter::new(small_fb(PixelFormat::PixelBGRResv8BitPerColor));
    w.draw_pixel(0, 0, &PixelColor::new(1, 2, 3));
    assert_eq!(pixel_bytes(&w.frame_buffer, 0, 0), (1, 2, 3));

    let mut w = BGRResv8BitPerColorPixelWriter::new(small_fb(PixelFormat::PixelRGBResv8BitPerColor));
    w.draw_pixel(0, 0, &PixelColor::new(1, 2, 3));
    assert_eq!(pixel_bytes(&w.frame_buffer, 0, 0), (3, 2, 1));
}

#[test]
fn fill_rect_covers_exactly_the_rectangle() {
    let mut fb = small_fb(PixelFormat::PixelRGBResv8BitPerColor);
    fb.fill_rect(Vector2D::new(1, 1), Vector2D::new(2, 2), &PixelColor::new(9, 9, 9));
    for y in 0..4 {
        for x in 0..6 {
            let expected = if (1..3).contains(&x) && (1..3).contains(&y) {
                (9, 9, 9)
            } else {
                (0, 0, 0)
            };
            assert_eq!(pixel_bytes(&fb, x, y), expected);
        }
    }
}

#[test]
fn draw_rect_paints_only_the_outline() {
    let mut fb = small_fb(PixelFormat::PixelRGBResv8BitPerColor);
    fb.draw_rect(Vector2D::new(0, 0), Vector2D::new(3, 3), &PixelColor::new(5, 5, 5));
    // a corner and an edge are painted, the interior is not
    assert_eq!(pixel_bytes(&fb, 0, 0), (5, 5, 5));
    assert_eq!(pixel_bytes(&fb, 3, 1), (5, 5, 5));
    assert_eq!(pixel_bytes(&fb, 1, 1), (0, 0, 0));
}

#[test]
fn font_draws_glyph_rows_most_significant_bit_first() {
    // glyph table for codes 0..='A': every row of 'A' is 0b1100_0000
    let mut glyphs = vec![0u8; 16 * 66];
    for dy in 0..16 {
        glyphs[16 * 65 + dy] = 0b1100_0000;
    }
    let font = ShinonomeFont::with_glyphs(glyphs);
    let mut fb = FrameBuffer::new(16, 16, 16, PixelFormat::PixelRGBResv8BitPerColor);
    font.write_ascii(&mut fb, 0, 0, 'A', &PixelColor::new(7, 7, 7));
    assert_eq!(pixel_bytes(&fb, 0, 0), (7, 7, 7));
    assert_eq!(pixel_bytes(&fb, 1, 5), (7, 7, 7));
    assert_eq!(pixel_bytes(&fb, 2, 0), (0, 0, 0));
}

#[test]
fn empty_font_draws_nothing() {
    let font = ShinonomeFont::new();
    let mut fb = FrameBuffer::new(16, 16, 16, PixelFormat::PixelRGBResv8BitPerColor);
    font.write_ascii(&mut fb, 0, 0, 'A', &PixelColor::new(7, 7, 7));
    for y in 0..16 {
        for x in 0..16 {
            assert_eq!(pixel_bytes(&fb, x, y), (0, 0, 0));
        }
    }
}

#[test]
fn char_size_includes_spacing() {
    let font = ShinonomeFont::new();
    assert_eq!(font.char_size(), (10, 18));
}

#[test]
fn frame_buffer_reports_its_geometry() {
    let fb = small_fb(PixelFormat::PixelBGRResv8BitPerColor);
    assert_eq!(fb.h(), 6);
    assert_eq!(fb.v(), 4);
    assert_eq!(*fb.pixel_format(), PixelFormat::PixelBGRResv8BitPerColor);
    let empty = FrameBuffer::uninitialized_default();
    assert_eq!(empty.h(), 0);
    assert_eq!(empty.v(), 0);
}

#[test]
fn vector2d_carries_its_components() {
    let v = Vector2D::new(3usize, 4usize);
    assert_eq!(v.x(), 3);
    assert_eq!(v.y(), 4);
}
