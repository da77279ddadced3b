use potatos::graphics::{FrameBuffer, PixelFormat, PixelWriter};
use potatos::mouse::{init_mouse, Mouse, MouseButton};
use potatos::sync::SpinMutex;

fn screen() -> FrameBuffer {
    FrameBuffer::new(800, 800, 600, PixelFormat::PixelRGBResv8BitPerColor)
}

#[test]
fn move_relative_applies_the_delta() {
    let mut mouse = Mouse::new();
    mouse.init(100, 100, 799, 599);
    let mut writer = screen();
    mouse.move_relative(&mut writer, 10, -20);
    assert_eq!(mouse.pos(), (110, 80));
}

#[test]
fn move_relative_clamps_to_the_screen() {
    let mut mouse = Mouse::new();
    mouse.init(5, 5, 799, 599);
    let mut writer = screen();
    mouse.move_relative(&mut writer, -50, -50);
    assert_eq!(mouse.pos(), (0, 0));
    mouse.move_relative(&mut writer, 10000, 10000);
    assert_eq!(mouse.pos(), (799, 599));
}

#[test]
fn draw_paints_outline_and_fill() {
    let mut mouse = Mouse::new();
    mouse.init(0, 0, 799, 599);
    let mut writer = screen();
    mouse.draw(&mut writer);
    // row 3 of the cursor is "@..@": black border, white filling
    let border = 4 * (800 * 3 + 0);
    let fill = 4 * (800 * 3 + 1);
    assert_eq!(&writer.pixels[border..border + 3], &[0, 0, 0]);
    assert_eq!(&writer.pixels[fill..fill + 3], &[255, 255, 255]);
}

#[test]
fn draw_clips_at_the_screen_edge() {
    let mut mouse = Mouse::new();
    // the cursor extends past the right and bottom edges
    mouse.init(795, 595, 799, 599);
    let mut writer = screen();
    mouse.draw(&mut writer);
    mouse.erase(&mut writer);
}

#[test]
fn init_mouse_places_the_pointer() {
    let mut mouse = SpinMutex::new(Mouse::new());
    let mut writer = screen();
    init_mouse(&mut mouse, &mut writer);
    let guard = mouse.lock();
    assert_eq!(guard.data.pos(), (200, 300));
    guard.unlock(&mut mouse);
}

#[test]
fn button_bits_are_distinct() {
    assert_eq!(MouseButton::Left.value(), 0b001);
    assert_eq!(MouseButton::Right.value(), 0b010);
    assert_eq!(MouseButton::Middle.value(), 0b100);
}
