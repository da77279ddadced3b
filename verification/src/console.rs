//! The text console: a fixed grid of characters with a cursor, rendered
//! through a pixel writer and a font. A draw-call sink for the rest of the
//! system; the contracts here keep the cursor and the character buffer
//! within the grid.

use vstd::prelude::*;

use crate::graphics::{Font, PixelColor, PixelWriter, Vector2D};

verus! {

/// The foreground/background pair the console draws with.
#[derive(Clone, Copy, PartialEq, Eq, Structural, Debug)]
struct Color {
    fg: PixelColor,
    bg: PixelColor,
}

#[derive(Clone, Copy, PartialEq, Eq, Structural, Debug)]
struct Cursor {
    x: usize,
    y: usize,
}

/// The number of character cells the buffer holds room for.
pub const CONSOLE_BUFFER_SIZE: usize = 10000;

const ROWS: usize = 10;

const COLUMNS: usize = 80;

/// The console's abstract state: what the text operations are specified
/// over.
pub struct ConsoleState {
    pub rows: int,
    pub columns: int,
    pub buffer: Seq<char>,
    pub cursor_x: int,
    pub cursor_y: int,
    pub scroll_flag: bool,
}

/// One row scrolled off: every cell takes the value one row below it, the
/// bottom row blanks, cells past the grid keep their value, and the next
/// render repaints backgrounds.
pub open spec fn spec_scroll_up(s: ConsoleState) -> ConsoleState {
    let end = s.rows * s.columns;
    ConsoleState {
        buffer: Seq::new(
            s.buffer.len(),
            |i: int|
                if i + s.columns < end {
                    s.buffer[i + s.columns]
                } else if i < end {
                    ' '
                } else {
                    s.buffer[i]
                },
        ),
        scroll_flag: true,
        ..s
    }
}

/// The cursor moves to the start of the next line, scrolling when it
/// already sits on the last one.
pub open spec fn spec_new_line(s: ConsoleState) -> ConsoleState {
    if s.cursor_y == s.rows - 1 {
        ConsoleState { cursor_x: 0, ..spec_scroll_up(s) }
    } else {
        ConsoleState { cursor_x: 0, cursor_y: s.cursor_y + 1, ..s }
    }
}

/// The cursor advances one cell, wrapping to the next line's start and
/// scrolling past the grid's last cell.
pub open spec fn spec_move_cursor_forward(s: ConsoleState) -> ConsoleState {
    if s.cursor_x + 1 == s.columns {
        if s.cursor_y + 1 == s.rows {
            ConsoleState { cursor_x: 0, ..spec_scroll_up(s) }
        } else {
            ConsoleState { cursor_x: 0, cursor_y: s.cursor_y + 1, ..s }
        }
    } else {
        ConsoleState { cursor_x: s.cursor_x + 1, ..s }
    }
}

/// One character arrives at the cursor: a newline moves to the next line;
/// any other character is stored and advances the cursor while room
/// remains on the line, and is dropped otherwise.
pub open spec fn spec_put_char(s: ConsoleState, c: char) -> ConsoleState {
    if c == '\n' {
        spec_new_line(s)
    } else if s.cursor_x < s.columns - 1 {
        ConsoleState {
            buffer: s.buffer.update(s.cursor_y * s.columns + s.cursor_x, c),
            cursor_x: s.cursor_x + 1,
            ..s
        }
    } else {
        s
    }
}

/// A string arrives character by character, in order.
pub open spec fn spec_put_string(s: ConsoleState, chars: Seq<char>) -> ConsoleState
    decreases chars.len(),
{
    if chars.len() == 0 {
        s
    } else {
        spec_put_string(spec_put_char(s, chars[0]), chars.drop_first())
    }
}

proof fn lemma_put_string_snoc(s: ConsoleState, chars: Seq<char>, c: char)
    ensures
        spec_put_string(s, chars.push(c)) == spec_put_char(spec_put_string(s, chars), c),
    decreases chars.len(),
{
    if chars.len() == 0 {
        assert(chars.push(c)[0] == c);
        assert(chars.push(c).drop_first() =~= Seq::<char>::empty());
        assert(spec_put_string(spec_put_char(s, c), Seq::<char>::empty()) == spec_put_char(
            s,
            c,
        ));
    } else {
        assert(chars.push(c)[0] == chars[0]);
        assert(chars.push(c).drop_first() =~= chars.drop_first().push(c));
        lemma_put_string_snoc(spec_put_char(s, chars[0]), chars.drop_first(), c);
    }
}

/// The character grid: `rows` x `columns` cells stored row-major in the
/// buffer, a write cursor, and a flag noting that a scroll made the next
/// render repaint cell backgrounds.
pub struct Console {
    rows: usize,
    columns: usize,
    buffer: Vec<char>,
    color: Color,
    cursor: Cursor,
    scroll_flag: bool,
}

impl Console {
    /// The grid fits the buffer and the cursor sits inside the grid.
    pub closed spec fn wf(self) -> bool {
        &&& self.buffer@.len() == CONSOLE_BUFFER_SIZE
        &&& 1 <= self.rows
        &&& 1 <= self.columns
        &&& self.rows * self.columns <= CONSOLE_BUFFER_SIZE
        &&& self.cursor.x < self.columns
        &&& self.cursor.y < self.rows
    }

    pub closed spec fn spec_rows(self) -> usize {
        self.rows
    }

    pub closed spec fn spec_columns(self) -> usize {
        self.columns
    }

    pub closed spec fn spec_cursor_x(self) -> usize {
        self.cursor.x
    }

    pub closed spec fn spec_cursor_y(self) -> usize {
        self.cursor.y
    }

    /// Whether a scroll since the last render obliges that render to
    /// repaint cell backgrounds.
    pub closed spec fn spec_scroll_flag(self) -> bool {
        self.scroll_flag
    }

    /// The abstract state the text operations are specified over.
    pub closed spec fn state(self) -> ConsoleState {
        ConsoleState {
            rows: self.rows as int,
            columns: self.columns as int,
            buffer: self.buffer@,
            cursor_x: self.cursor.x as int,
            cursor_y: self.cursor.y as int,
            scroll_flag: self.scroll_flag,
        }
    }

    /// The foreground colour text is drawn with.
    pub closed spec fn spec_fg(self) -> PixelColor {
        self.color.fg
    }

    /// The background colour cells are repainted with.
    pub closed spec fn spec_bg(self) -> PixelColor {
        self.color.bg
    }

    pub fn new() -> (r: Console)
        ensures
            r.wf(),
            r.spec_rows() == 10,
            r.spec_columns() == 80,
            r.spec_cursor_x() == 0,
            r.spec_cursor_y() == 0,
    {
        let mut buffer: Vec<char> = Vec::new();
        let mut i: usize = 0;
        while i < CONSOLE_BUFFER_SIZE
            invariant
                i <= CONSOLE_BUFFER_SIZE,
                buffer@.len() == i,
            decreases CONSOLE_BUFFER_SIZE - i,
        {
            buffer.push(' ');
            i = i + 1;
        }
        Console {
            rows: ROWS,
            columns: COLUMNS,
            buffer,
            color: Color { fg: PixelColor::black(), bg: PixelColor::white() },
            cursor: Cursor { x: 0, y: 0 },
            scroll_flag: false,
        }
    }

    pub fn rows(&self) -> (r: usize)
        ensures
            r == self.spec_rows(),
    {
        self.rows
    }

    pub fn columns(&self) -> (r: usize)
        ensures
            r == self.spec_columns(),
    {
        self.columns
    }

    pub fn fg(&self) -> (r: PixelColor)
        ensures
            r == self.spec_fg(),
    {
        self.color.fg
    }

    pub fn bg(&self) -> (r: PixelColor)
        ensures
            r == self.spec_bg(),
    {
        self.color.bg
    }

    /// Draws the whole grid: when a scroll happened since the last render,
    /// each cell's background is repainted first; then every character is
    /// drawn in the foreground colour. Clears the scroll flag.
    pub fn render<W: PixelWriter, F: Font>(&mut self, writer: &mut W, font: &F)
        requires
            old(self).wf(),
            old(writer).wf(),
            old(writer).spec_width() <= usize::MAX,
            old(writer).spec_height() <= usize::MAX,
            8 <= font.spec_char_size().0,
            16 <= font.spec_char_size().1,
            old(self).spec_columns() * font.spec_char_size().0 <= old(writer).spec_width(),
            old(self).spec_rows() * font.spec_char_size().1 <= old(writer).spec_height(),
        ensures
            final(self).wf(),
            final(self).spec_rows() == old(self).spec_rows(),
            final(self).spec_columns() == old(self).spec_columns(),
            final(self).spec_cursor_x() == old(self).spec_cursor_x(),
            final(self).spec_cursor_y() == old(self).spec_cursor_y(),
            !final(self).spec_scroll_flag(),
            final(writer).wf(),
            final(writer).spec_width() == old(writer).spec_width(),
            final(writer).spec_height() == old(writer).spec_height(),
    {
        let (font_x, font_y) = font.char_size();
        let mut y: usize = 0;
        while y < self.rows
            invariant
                y <= self.rows,
                self == old(self),
                self.wf(),
                writer.wf(),
                writer.spec_width() == old(writer).spec_width(),
                writer.spec_height() == old(writer).spec_height(),
                writer.spec_width() <= usize::MAX,
                writer.spec_height() <= usize::MAX,
                font_x == font.spec_char_size().0,
                font_y == font.spec_char_size().1,
                8 <= font_x,
                16 <= font_y,
                self.spec_columns() * font_x <= writer.spec_width(),
                self.spec_rows() * font_y <= writer.spec_height(),
            decreases self.rows - y,
        {
            let mut x: usize = 0;
            while x < self.columns
                invariant
                    x <= self.columns,
                    y < self.rows,
                    self == old(self),
                    self.wf(),
                    writer.wf(),
                    writer.spec_width() == old(writer).spec_width(),
                    writer.spec_height() == old(writer).spec_height(),
                    writer.spec_width() <= usize::MAX,
                    writer.spec_height() <= usize::MAX,
                    font_x == font.spec_char_size().0,
                    font_y == font.spec_char_size().1,
                    8 <= font_x,
                    16 <= font_y,
                    self.spec_columns() * font_x <= writer.spec_width(),
                    self.spec_rows() * font_y <= writer.spec_height(),
                decreases self.columns - x,
            {
                proof {
                    assert(y * self.columns + x < self.rows * self.columns) by (nonlinear_arith)
                        requires
                            y < self.rows,
                            x < self.columns,
                            1 <= self.columns,
                    ;
                    assert((x + 1) * font_x <= self.columns * font_x && (y + 1) * font_y
                        <= self.rows * font_y) by (nonlinear_arith)
                        requires
                            x + 1 <= self.columns,
                            y + 1 <= self.rows,
                            8 <= font_x,
                            16 <= font_y,
                    ;
                    assert((x + 1) * font_x == x * font_x + font_x && (y + 1) * font_y == y
                        * font_y + font_y) by (nonlinear_arith);
                }
                let index = y * self.columns + x;
                let ch = self.buffer[index];
                if self.scroll_flag {
                    writer.fill_rect(
                        Vector2D::new(x * font_x, y * font_y),
                        Vector2D::new(font_x, font_y),
                        &self.color.bg,
                    );
                }
                font.write_ascii(writer, font_x * x, font_y * y, ch, &self.color.fg);
                x = x + 1;
            }
            y = y + 1;
        }
        self.scroll_flag = false;
    }

    /// Stores a string at the cursor, character by character: a newline
    /// moves to the next line (scrolling at the bottom), any other
    /// character is stored and advances the cursor while room remains on
    /// the line, and is dropped otherwise.
    pub fn put_string(&mut self, s: &str)
        requires
            old(self).wf(),
        ensures
            final(self).wf(),
            final(self).spec_rows() == old(self).spec_rows(),
            final(self).spec_columns() == old(self).spec_columns(),
            final(self).state() == spec_put_string(old(self).state(), s@),
    {
        proof {
            assert(s@.subrange(0, 0) =~= Seq::<char>::empty());
        }
        let len = s.unicode_len();
        let mut i: usize = 0;
        while i < len
            invariant
                i <= len,
                len == s@.len(),
                self.wf(),
                self.spec_rows() == old(self).spec_rows(),
                self.spec_columns() == old(self).spec_columns(),
                self.state() == spec_put_string(old(self).state(), s@.subrange(0, i as int)),
            decreases len - i,
        {
            let ghost pre = self.state();
            let c = s.get_char(i);
            if c == '\n' {
                self.new_line();
            } else if self.cursor.x < self.columns - 1 {
                proof {
                    assert(self.cursor.y * self.columns + self.cursor.x < self.rows
                        * self.columns) by (nonlinear_arith)
                        requires
                            self.cursor.y < self.rows,
                            self.cursor.x < self.columns,
                            1 <= self.columns,
                    ;
                }
                let index = self.cursor.y * self.columns + self.cursor.x;
                self.buffer.set(index, c);
                self.cursor.x = self.cursor.x + 1;
            }
            proof {
                assert(self.state() == spec_put_char(pre, c));
                lemma_put_string_snoc(old(self).state(), s@.subrange(0, i as int), c);
                assert(s@.subrange(0, i + 1) =~= s@.subrange(0, i as int).push(s@[i as int]));
            }
            i = i + 1;
        }
        proof {
            assert(s@.subrange(0, len as int) =~= s@);
        }
    }

    /// Advances the cursor one cell, wrapping to the next line's start and
    /// scrolling when the grid's last cell is passed.
    pub fn move_cursor_forward(&mut self)
        requires
            old(self).wf(),
        ensures
            final(self).wf(),
            final(self).spec_rows() == old(self).spec_rows(),
            final(self).spec_columns() == old(self).spec_columns(),
            final(self).state() == spec_move_cursor_forward(old(self).state()),
    {
        if self.cursor.x + 1 == self.columns {
            if self.cursor.y + 1 == self.rows {
                self.scroll_up();
                self.cursor.x = 0;
            } else {
                self.cursor.y = self.cursor.y + 1;
                self.cursor.x = 0;
            }
        } else {
            self.cursor.x = self.cursor.x + 1;
        }
    }

    /// Moves the cursor one cell back, stopping at the line's start.
    pub fn move_cursor_backward(&mut self)
        requires
            old(self).wf(),
        ensures
            final(self).wf(),
            final(self).spec_rows() == old(self).spec_rows(),
            final(self).spec_columns() == old(self).spec_columns(),
            final(self).spec_cursor_x() == if old(self).spec_cursor_x() > 0 {
                (old(self).spec_cursor_x() - 1) as usize
            } else {
                0usize
            },
            final(self).state() == (ConsoleState {
                cursor_x: if old(self).state().cursor_x > 0 {
                    old(self).state().cursor_x - 1
                } else {
                    0
                },
                ..old(self).state()
            }),
    {
        if self.cursor.x > 0 {
            self.cursor.x = self.cursor.x - 1;
        }
    }

    /// Moves the cursor to the start of the next line, scrolling when it
    /// already sits on the last one.
    pub fn new_line(&mut self)
        requires
            old(self).wf(),
        ensures
            final(self).wf(),
            final(self).spec_rows() == old(self).spec_rows(),
            final(self).spec_columns() == old(self).spec_columns(),
            final(self).spec_cursor_x() == 0,
            final(self).state() == spec_new_line(old(self).state()),
    {
        if self.cursor.y == self.rows - 1 {
            self.scroll_up();
        } else {
            self.cursor.y = self.cursor.y + 1;
        }
        self.cursor.x = 0;
    }

    /// Discards the top line: every line moves up one place, the bottom
    /// line is blanked, and the next render repaints backgrounds.
    pub fn scroll_up(&mut self)
        requires
            old(self).wf(),
        ensures
            final(self).wf(),
            final(self).spec_rows() == old(self).spec_rows(),
            final(self).spec_columns() == old(self).spec_columns(),
            final(self).spec_cursor_x() == old(self).spec_cursor_x(),
            final(self).spec_cursor_y() == old(self).spec_cursor_y(),
            final(self).state() == spec_scroll_up(old(self).state()),
    {
        self.scroll_flag = true;
        proof {
            assert(self.rows * self.columns <= CONSOLE_BUFFER_SIZE);
            assert(self.columns <= self.rows * self.columns) by (nonlinear_arith)
                requires
                    1 <= self.rows,
                    0 <= self.columns,
            ;
        }
        let end = self.rows * self.columns;
        let mut i: usize = 0;
        while i + self.columns < end
            invariant
                i + self.spec_columns() <= end,
                self.spec_columns() <= end,
                end == self.rows * self.columns,
                end <= CONSOLE_BUFFER_SIZE,
                self.wf(),
                self.spec_rows() == old(self).spec_rows(),
                self.spec_columns() == old(self).spec_columns(),
                self.spec_cursor_x() == old(self).spec_cursor_x(),
                self.spec_cursor_y() == old(self).spec_cursor_y(),
                self.spec_scroll_flag(),
                self.buffer@.len() == CONSOLE_BUFFER_SIZE,
                forall|k: int|
                    0 <= k < i ==> self.buffer@[k] == old(self).buffer@[k + self.columns],
                forall|k: int|
                    i <= k < CONSOLE_BUFFER_SIZE ==> self.buffer@[k] == old(self).buffer@[k],
            decreases end - i,
        {
            let c = self.buffer[i + self.columns];
            self.buffer.set(i, c);
            i = i + 1;
        }
        let ghost shift_end = i as int;
        let mut j: usize = i;
        while j < end
            invariant
                shift_end <= j <= end,
                shift_end == end - self.spec_columns(),
                self.spec_columns() <= end,
                end == self.rows * self.columns,
                end <= CONSOLE_BUFFER_SIZE,
                self.wf(),
                self.spec_rows() == old(self).spec_rows(),
                self.spec_columns() == old(self).spec_columns(),
                self.spec_cursor_x() == old(self).spec_cursor_x(),
                self.spec_cursor_y() == old(self).spec_cursor_y(),
                self.spec_scroll_flag(),
                self.buffer@.len() == CONSOLE_BUFFER_SIZE,
                forall|k: int|
                    0 <= k < shift_end ==> self.buffer@[k] == old(self).buffer@[k + self.columns],
                forall|k: int| shift_end <= k < j ==> self.buffer@[k] == ' ',
                forall|k: int|
                    j <= k < CONSOLE_BUFFER_SIZE ==> self.buffer@[k] == old(self).buffer@[k],
            decreases end - j,
        {
            self.buffer.set(j, ' ');
            j = j + 1;
        }
        proof {
            let target = spec_scroll_up(old(self).state());
            assert forall|k: int| 0 <= k < CONSOLE_BUFFER_SIZE implies self.buffer@[k]
                == target.buffer[k] by {
                if k < shift_end {
                    assert(self.buffer@[k] == old(self).buffer@[k + self.columns]);
                } else if k < end {
                    assert(self.buffer@[k] == ' ');
                }
            }
            assert(self.buffer@ =~= target.buffer);
            assert(self.state() == target);
        }
    }
}

} // verus!
