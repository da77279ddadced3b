//! The mouse pointer: its clamped position and the drawing of its cursor
//! shape. The external USB driver reports signed 8-bit deltas through an
//! observer; the position moves by the delta, clamped to the screen, and
//! the cursor is erased at the old position and drawn at the new one.

use vstd::prelude::*;

use crate::graphics::{PixelColor, PixelWriter};
use crate::sync::SpinMutex;

verus! {

pub const MOUSE_CURSOR_WIDTH: usize = 15;

pub const MOUSE_CURSOR_HEIGHT: usize = 24;

/// Coordinates stay within this sane screen bound, so pointer arithmetic
/// cannot overflow.
pub const MOUSE_COORDINATE_LIMIT: isize = 1000000;

/// The outline cells of cursor row `dy`: bit `dx` set means the cell at
/// column `dx` belongs to the pointer's black border.
pub fn cursor_outline_row(dy: usize) -> u16 {
    match dy {
        0usize => 0x0001,
        1usize => 0x0003,
        2usize => 0x0005,
        3usize => 0x0009,
        4usize => 0x0011,
        5usize => 0x0021,
        6usize => 0x0041,
        7usize => 0x0081,
        8usize => 0x0101,
        9usize => 0x0201,
        10usize => 0x0401,
        11usize => 0x0801,
        12usize => 0x1001,
        13usize => 0x2001,
        14usize => 0x7f81,
        15usize => 0x0081,
        16usize => 0x0161,
        17usize => 0x0151,
        18usize => 0x0289,
        19usize => 0x0285,
        20usize => 0x0503,
        21usize => 0x0501,
        22usize => 0x0a00,
        23usize => 0x0e00,
        _ => 0,
    }
}

/// The interior cells of cursor row `dy`: bit `dx` set means the cell at
/// column `dx` belongs to the pointer's white filling.
pub fn cursor_fill_row(dy: usize) -> u16 {
    match dy {
        0usize => 0x0000,
        1usize => 0x0000,
        2usize => 0x0002,
        3usize => 0x0006,
        4usize => 0x000e,
        5usize => 0x001e,
        6usize => 0x003e,
        7usize => 0x007e,
        8usize => 0x00fe,
        9usize => 0x01fe,
        10usize => 0x03fe,
        11usize => 0x07fe,
        12usize => 0x0ffe,
        13usize => 0x1ffe,
        14usize => 0x007e,
        15usize => 0x007e,
        16usize => 0x009e,
        17usize => 0x008e,
        18usize => 0x0106,
        19usize => 0x0102,
        20usize => 0x0200,
        21usize => 0x0200,
        22usize => 0x0400,
        _ => 0x0000,
    }
}

/// The buttons a report can carry, as the bit each occupies in the report.
#[derive(Clone, Copy, PartialEq, Eq, Structural, Debug)]
pub enum MouseButton {
    Left,
    Right,
    Middle,
}

impl MouseButton {
    pub open spec fn spec_value(self) -> u8 {
        match self {
            MouseButton::Left => 0b001,
            MouseButton::Right => 0b010,
            MouseButton::Middle => 0b100,
        }
    }

    pub fn value(self) -> (r: u8)
        ensures
            r == self.spec_value(),
    {
        match self {
            MouseButton::Left => 0b001,
            MouseButton::Right => 0b010,
            MouseButton::Middle => 0b100,
        }
    }
}

/// The pointer position and the bounds it is clamped to.
pub struct Mouse {
    x: isize,
    y: isize,
    max_x: isize,
    max_y: isize,
}

impl Mouse {
    /// Position and bounds are non-negative and within the coordinate
    /// limit.
    pub closed spec fn wf(self) -> bool {
        &&& 0 <= self.x <= MOUSE_COORDINATE_LIMIT
        &&& 0 <= self.y <= MOUSE_COORDINATE_LIMIT
        &&& 0 <= self.max_x <= MOUSE_COORDINATE_LIMIT
        &&& 0 <= self.max_y <= MOUSE_COORDINATE_LIMIT
    }

    pub closed spec fn spec_x(self) -> isize {
        self.x
    }

    pub closed spec fn spec_y(self) -> isize {
        self.y
    }

    pub closed spec fn spec_max_x(self) -> isize {
        self.max_x
    }

    pub closed spec fn spec_max_y(self) -> isize {
        self.max_y
    }

    pub fn new() -> (r: Mouse)
        ensures
            r.wf(),
            r.spec_x() == 0 && r.spec_y() == 0,
            r.spec_max_x() == 0 && r.spec_max_y() == 0,
    {
        Mouse { x: 0, y: 0, max_x: 0, max_y: 0 }
    }

    /// Places the pointer and records the screen bounds it is clamped to.
    pub fn init(&mut self, x: isize, y: isize, max_x: isize, max_y: isize)
        requires
            0 <= x <= MOUSE_COORDINATE_LIMIT,
            0 <= y <= MOUSE_COORDINATE_LIMIT,
            0 <= max_x <= MOUSE_COORDINATE_LIMIT,
            0 <= max_y <= MOUSE_COORDINATE_LIMIT,
        ensures
            final(self).wf(),
            final(self).spec_x() == x,
            final(self).spec_y() == y,
            final(self).spec_max_x() == max_x,
            final(self).spec_max_y() == max_y,
    {
        self.x = x;
        self.y = y;
        self.max_x = max_x;
        self.max_y = max_y;
    }

    pub fn pos(&self) -> (r: (isize, isize))
        ensures
            r.0 == self.spec_x(),
            r.1 == self.spec_y(),
    {
        (self.x, self.y)
    }

    /// Moves the pointer by a delta, clamped to `[0, max]` on each axis,
    /// erasing the cursor at the old position and drawing it at the new.
    pub fn move_relative<W: PixelWriter>(&mut self, writer: &mut W, dx: isize, dy: isize)
        requires
            old(self).wf(),
            old(writer).wf(),
            old(writer).spec_width() <= usize::MAX,
            old(writer).spec_height() <= usize::MAX,
            -MOUSE_COORDINATE_LIMIT <= dx <= MOUSE_COORDINATE_LIMIT,
            -MOUSE_COORDINATE_LIMIT <= dy <= MOUSE_COORDINATE_LIMIT,
        ensures
            final(self).wf(),
            final(writer).wf(),
            final(writer).spec_width() == old(writer).spec_width(),
            final(writer).spec_height() == old(writer).spec_height(),
            final(self).spec_max_x() == old(self).spec_max_x(),
            final(self).spec_max_y() == old(self).spec_max_y(),
            final(self).spec_x() == if old(self).spec_x() + dx < 0 {
                0
            } else if old(self).spec_x() + dx > old(self).spec_max_x() {
                old(self).spec_max_x()
            } else {
                (old(self).spec_x() + dx) as isize
            },
            final(self).spec_y() == if old(self).spec_y() + dy < 0 {
                0
            } else if old(self).spec_y() + dy > old(self).spec_max_y() {
                old(self).spec_max_y()
            } else {
                (old(self).spec_y() + dy) as isize
            },
    {
        self.erase(writer);
        let moved_x = self.x + dx;
        self.x = if moved_x < 0 {
            0
        } else if moved_x > self.max_x {
            self.max_x
        } else {
            moved_x
        };
        let moved_y = self.y + dy;
        self.y = if moved_y < 0 {
            0
        } else if moved_y > self.max_y {
            self.max_y
        } else {
            moved_y
        };
        self.draw(writer);
    }

    /// Paints every cursor cell white at the current position, clipped to
    /// the writer's bounds.
    pub fn erase<W: PixelWriter>(&self, writer: &mut W)
        requires
            self.wf(),
            old(writer).wf(),
            old(writer).spec_width() <= usize::MAX,
            old(writer).spec_height() <= usize::MAX,
        ensures
            final(writer).wf(),
            final(writer).spec_width() == old(writer).spec_width(),
            final(writer).spec_height() == old(writer).spec_height(),
    {
        let base_x = self.x as usize;
        let base_y = self.y as usize;
        let mut dy: usize = 0;
        while dy < MOUSE_CURSOR_HEIGHT
            invariant
                dy <= MOUSE_CURSOR_HEIGHT,
                base_x <= MOUSE_COORDINATE_LIMIT,
                base_y <= MOUSE_COORDINATE_LIMIT,
                writer.wf(),
                writer.spec_width() == old(writer).spec_width(),
                writer.spec_height() == old(writer).spec_height(),
                writer.spec_width() <= usize::MAX,
                writer.spec_height() <= usize::MAX,
            decreases MOUSE_CURSOR_HEIGHT - dy,
        {
            let outline = cursor_outline_row(dy);
            let fill = cursor_fill_row(dy);
            let shape = outline | fill;
            let mut dx: usize = 0;
            while dx < MOUSE_CURSOR_WIDTH
                invariant
                    dx <= MOUSE_CURSOR_WIDTH,
                    dy < MOUSE_CURSOR_HEIGHT,
                    base_x <= MOUSE_COORDINATE_LIMIT,
                    base_y <= MOUSE_COORDINATE_LIMIT,
                    writer.wf(),
                    writer.spec_width() == old(writer).spec_width(),
                    writer.spec_height() == old(writer).spec_height(),
                    writer.spec_width() <= usize::MAX,
                    writer.spec_height() <= usize::MAX,
                decreases MOUSE_CURSOR_WIDTH - dx,
            {
                if shape & (1u16 << (dx as u16)) != 0 {
                    let px = base_x + dx;
                    let py = base_y + dy;
                    if px < writer.width() && py < writer.height() {
                        writer.draw_pixel(px, py, &PixelColor::white());
                    }
                }
                dx = dx + 1;
            }
            dy = dy + 1;
        }
    }

    /// Draws the cursor at the current position: outline cells black, fill
    /// cells white, clipped to the writer's bounds.
    pub fn draw<W: PixelWriter>(&self, writer: &mut W)
        requires
            self.wf(),
            old(writer).wf(),
            old(writer).spec_width() <= usize::MAX,
            old(writer).spec_height() <= usize::MAX,
        ensures
            final(writer).wf(),
            final(writer).spec_width() == old(writer).spec_width(),
            final(writer).spec_height() == old(writer).spec_height(),
    {
        let base_x = self.x as usize;
        let base_y = self.y as usize;
        let mut dy: usize = 0;
        while dy < MOUSE_CURSOR_HEIGHT
            invariant
                dy <= MOUSE_CURSOR_HEIGHT,
                base_x <= MOUSE_COORDINATE_LIMIT,
                base_y <= MOUSE_COORDINATE_LIMIT,
                writer.wf(),
                writer.spec_width() == old(writer).spec_width(),
                writer.spec_height() == old(writer).spec_height(),
                writer.spec_width() <= usize::MAX,
                writer.spec_height() <= usize::MAX,
            decreases MOUSE_CURSOR_HEIGHT - dy,
        {
            let outline = cursor_outline_row(dy);
            let fill = cursor_fill_row(dy);
            let mut dx: usize = 0;
            while dx < MOUSE_CURSOR_WIDTH
                invariant
                    dx <= MOUSE_CURSOR_WIDTH,
                    dy < MOUSE_CURSOR_HEIGHT,
                    base_x <= MOUSE_COORDINATE_LIMIT,
                    base_y <= MOUSE_COORDINATE_LIMIT,
                    writer.wf(),
                    writer.spec_width() == old(writer).spec_width(),
                    writer.spec_height() == old(writer).spec_height(),
                    writer.spec_width() <= usize::MAX,
                    writer.spec_height() <= usize::MAX,
                decreases MOUSE_CURSOR_WIDTH - dx,
            {
                let px = base_x + dx;
                let py = base_y + dy;
                if px < writer.width() && py < writer.height() {
                    if outline & (1u16 << (dx as u16)) != 0 {
                        writer.draw_pixel(px, py, &PixelColor::black());
                    } else if fill & (1u16 << (dx as u16)) != 0 {
                        writer.draw_pixel(px, py, &PixelColor::white());
                    }
                }
                dx = dx + 1;
            }
            dy = dy + 1;
        }
    }
}

/// Places the guarded pointer at its starting position, with the writer's
/// resolution as its clamping bounds, and draws it once.
pub fn init_mouse<W: PixelWriter>(mouse: &mut SpinMutex<Mouse>, writer: &mut W)
    requires
        old(mouse).wf(),
        !old(mouse).is_locked(),
        old(writer).wf(),
        0 < old(writer).spec_width() <= MOUSE_COORDINATE_LIMIT,
        0 < old(writer).spec_height() <= MOUSE_COORDINATE_LIMIT,
    ensures
        final(mouse).wf(),
        !final(mouse).is_locked(),
        final(mouse).value().wf(),
        final(mouse).value().spec_x() == 200,
        final(mouse).value().spec_y() == 300,
        final(writer).wf(),
        final(writer).spec_width() == old(writer).spec_width(),
        final(writer).spec_height() == old(writer).spec_height(),
{
    let mut guard = mouse.lock();
    let max_x = writer.width() as isize;
    let max_y = writer.height() as isize;
    guard.data.init(200, 300, max_x, max_y);
    guard.data.draw(writer);
    guard.unlock(mouse);
}

} // verus!
