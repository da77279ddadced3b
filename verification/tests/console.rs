use potatos::console::Console;
use potatos::graphics::{FrameBuffer, PixelFormat, ShinonomeFont};
use potatos::logger::{set_log_level, should_log, LogLevel};

#[test]
fn console_grid_dimensions() {
    let console = Console::new();
    assert_eq!(console.rows(), 10);
    assert_eq!(console.columns(), 80);
}

#[test]
fn console_colors_default_to_black_on_white() {
    let console = Console::new();
    assert_eq!((console.fg().red, console.fg().green, console.fg().blue), (0, 0, 0));
    assert_eq!((console.bg().red, console.bg().green, console.bg().blue), (255, 255, 255));
}

#[test]
fn put_string_and_render_draw_text() {
    let mut console = Console::new();
    // 'A' on the second line, then a scroll moves it to the first and
    // makes the next render repaint cell backgrounds
    console.put_string("\nA");
    console.scroll_up();
    // a console screen needs 80*10 cells of 10x18 pixels
    let mut fb = FrameBuffer::new(800, 800, 180, PixelFormat::PixelRGBResv8BitPerColor);
    // every glyph is a full 8x16 block, except the blank cell
    let mut glyphs = vec![0xffu8; 16 * 128];
    for dy in 0..16 {
        glyphs[16 * (' ' as usize) + dy] = 0;
    }
    let font = ShinonomeFont::with_glyphs(glyphs);
    console.render(&mut fb, &font);
    // 'A' now sits in cell (0,0): its first pixel is inked in the
    // foreground colour, black
    assert_eq!(fb.pixels[0..3], [0, 0, 0]);
    // a blank cell was repainted in the background colour, white
    let blank = 4 * 50;
    assert_eq!(fb.pixels[blank..blank + 3], [255, 255, 255]);
}

#[test]
fn scroll_keeps_the_cursor_column() {
    let mut console = Console::new();
    // eleven lines on a ten-line console force one scroll
    for _ in 0..11 {
        console.put_string("line\n");
    }
    assert_eq!(console.rows(), 10);
    assert_eq!(console.columns(), 80);
}

#[test]
fn log_levels_filter_by_severity() {
    assert!(should_log(LogLevel::Error, LogLevel::Error));
    assert!(!should_log(LogLevel::Error, LogLevel::Warn));
    assert!(should_log(LogLevel::Info, LogLevel::Warn));
    assert!(should_log(LogLevel::Trace, LogLevel::Debug));
    assert!(!should_log(LogLevel::Debug, LogLevel::Trace));
}

#[test]
fn set_log_level_replaces_the_threshold() {
    let mut level = LogLevel::Error;
    set_log_level(&mut level, LogLevel::Trace);
    assert_eq!(level, LogLevel::Trace);
    let mut own = LogLevel::Warn;
    own.set(LogLevel::Info);
    assert_eq!(own, LogLevel::Info);
    assert_eq!(LogLevel::Error.severity(), 0);
    assert_eq!(LogLevel::Trace.severity(), 4);
}
