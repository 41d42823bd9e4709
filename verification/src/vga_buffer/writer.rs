use vstd::prelude::*;
use crate::vga_buffer::colour::{flipped, Colour, ColourCode};
use crate::vga_buffer::{BUFFER_HEIGHT, BUFFER_WIDTH};
use vstd::string::StringSliceAdditionalSpecFns;

verus! {

/// Rows of text memory the writer works on: the 25 rows of the screen.
pub const MAPPED_ROWS: usize = 25;

/// Number of character cells in the mapped rows.
pub const MAPPED_CELLS: usize = 2000;

/// One character cell: the byte shown and its attribute.
#[derive(Debug, Clone, Copy, PartialEq, Eq, Structural)]
pub struct ScreenChar {
    pub ascii_character: u8,
    pub colour_code: ColourCode,
}

/// The text memory, row by row (`MAPPED_ROWS` rows of `BUFFER_WIDTH` cells).
pub struct Buffer {
    pub chars: Vec<ScreenChar>,
}

/// A column/row position on the screen.
#[derive(Debug, Clone, Copy, PartialEq, Eq, Structural)]
pub struct Pos {
    pub x: usize,
    pub y: usize,
}

/// The screen writer: the write position, the current attribute, the text
/// memory, the cell that shows the mouse cursor (its colours are flipped),
/// and the last value written to the hardware cursor register.
pub struct Writer {
    pub pos: Pos,
    pub colour_code: ColourCode,
    pub buffer: Buffer,
    pub flipped: Pos,
    pub cursor: Option<u16>,
}

/// The abstract state of a writer.
pub struct ScreenState {
    pub x: int,
    pub y: int,
    pub colour: ColourCode,
    pub flipped_x: int,
    pub flipped_y: int,
    pub cells: Seq<ScreenChar>,
    pub cursor: Option<u16>,
}

impl View for Writer {
    type V = ScreenState;

    open spec fn view(&self) -> ScreenState {
        ScreenState {
            x: self.pos.x as int,
            y: self.pos.y as int,
            colour: self.colour_code,
            flipped_x: self.flipped.x as int,
            flipped_y: self.flipped.y as int,
            cells: self.buffer.chars@,
            cursor: self.cursor,
        }
    }
}

/// Index of the cell at column `x`, row `y`.
pub open spec fn cell_index(x: int, y: int) -> int {
    y * 80 + x
}

/// The hardware cursor register takes the low 16 bits of the linear
/// position.
pub open spec fn st_update_cursor(s: ScreenState) -> ScreenState {
    ScreenState { cursor: Some((cell_index(s.x, s.y) % 65536) as u16), ..s }
}

/// Swaps the colours of the cell at `(x, y)` and records it as the flipped
/// cell.
pub open spec fn st_flip(s: ScreenState, x: int, y: int) -> ScreenState {
    let c = s.cells[cell_index(x, y)];
    ScreenState {
        cells: s.cells.update(
            cell_index(x, y),
            ScreenChar { ascii_character: c.ascii_character, colour_code: ColourCode(flipped(c.colour_code.0)) },
        ),
        flipped_x: x,
        flipped_y: y,
        ..s
    }
}

/// The text memory after scrolling up: the status line (row 0) stays, rows
/// 1 to 23 take the contents of rows 2 to 24, and the bottom row is blanked
/// with spaces in `colour`.
pub open spec fn scrolled(cells: Seq<ScreenChar>, colour: ColourCode) -> Seq<ScreenChar> {
    Seq::new(
        cells.len(),
        |i: int|
            if 80 <= i < 1920 {
                cells[i + 80]
            } else if 1920 <= i < 2000 {
                ScreenChar { ascii_character: 32, colour_code: colour }
            } else {
                cells[i]
            },
    )
}

/// Moves to the start of the next line, scrolling when it falls off the
/// screen; the flipped cell is restored before the scroll and flipped again
/// after it.
pub open spec fn st_new_line(s: ScreenState) -> ScreenState {
    let s1 = ScreenState { y: s.y + 1, x: 0, ..s };
    let s2 = st_flip(s1, s.flipped_x, s.flipped_y);
    let s3 = if s2.y >= 25 {
        ScreenState { cells: scrolled(s2.cells, s2.colour), y: s2.y - 1, ..s2 }
    } else {
        s2
    };
    let s4 = st_flip(s3, s3.flipped_x, s3.flipped_y);
    st_update_cursor(s4)
}

/// Writes a byte at the current position (wrapping to the next line first
/// when the line is full), with the colours flipped on the flipped cell.
pub open spec fn st_put(s: ScreenState, byte: u8, cursor: bool) -> ScreenState {
    let s1 = if s.x >= 80 { st_new_line(s) } else { s };
    let colour = if s1.x == s1.flipped_x && s1.y == s1.flipped_y {
        ColourCode(flipped(s1.colour.0))
    } else {
        s1.colour
    };
    let s2 = ScreenState {
        cells: s1.cells.update(cell_index(s1.x, s1.y), ScreenChar { ascii_character: byte, colour_code: colour }),
        x: s1.x + 1,
        ..s1
    };
    if cursor { st_update_cursor(s2) } else { s2 }
}

/// The position a backspace moves back to: one column left, or the last
/// column of the previous line from column 0 (never above row 1).
pub open spec fn backspace_pos(x: int, y: int) -> (int, int) {
    if x == 0 {
        if y > 1 { (79, y - 1) } else { (x, y) }
    } else {
        (x - 1, y)
    }
}

/// The effect of writing one byte: a newline, a backspace (blank the
/// previous position and move there), or a character.
pub open spec fn st_write_byte(s: ScreenState, byte: u8, cursor: bool) -> ScreenState {
    if byte == 10 {
        st_new_line(s)
    } else if byte == 8 {
        let (x, y) = backspace_pos(s.x, s.y);
        let s1 = st_put(ScreenState { x, y, ..s }, 32, false);
        st_update_cursor(ScreenState { x, y, ..s1 })
    } else {
        st_put(s, byte, cursor)
    }
}

/// The effect of writing a byte string without moving the cursor register.
pub open spec fn st_write_bytes(s: ScreenState, bytes: Seq<u8>) -> ScreenState
    decreases bytes.len(),
{
    if bytes.len() == 0 {
        s
    } else {
        st_write_byte(st_write_bytes(s, bytes.drop_last()), bytes.last(), false)
    }
}

/// The state a writer can work in: the full text memory, the write row and
/// the flipped cell on the screen, and a linear position that fits a `usize`.
pub open spec fn st_ok(s: ScreenState) -> bool {
    &&& s.cells.len() == MAPPED_CELLS
    &&& 0 <= s.y < 25
    &&& 0 <= s.x
    &&& cell_index(s.x, s.y) <= usize::MAX
    &&& 0 <= s.flipped_x < 80
    &&& 0 <= s.flipped_y < 25
}

proof fn lemma_write_byte_ok(s: ScreenState, byte: u8, cursor: bool)
    requires
        st_ok(s),
    ensures
        st_ok(st_write_byte(s, byte, cursor)),
{
}

proof fn lemma_write_bytes_ok(s: ScreenState, bytes: Seq<u8>)
    requires
        st_ok(s),
    ensures
        st_ok(st_write_bytes(s, bytes)),
    decreases bytes.len(),
{
    if bytes.len() > 0 {
        lemma_write_bytes_ok(s, bytes.drop_last());
        lemma_write_byte_ok(st_write_bytes(s, bytes.drop_last()), bytes.last(), false);
    }
}

/// Blanks row `row` with spaces in the current colour.
pub open spec fn st_fill_row(s: ScreenState, row: int) -> ScreenState {
    ScreenState {
        cells: Seq::new(
            s.cells.len(),
            |i: int|
                if row * 80 <= i < row * 80 + 80 {
                    ScreenChar { ascii_character: 32, colour_code: s.colour }
                } else {
                    s.cells[i]
                },
        ),
        ..s
    }
}

/// Blanks rows 1 to 24 (row 0 is the status line).
pub open spec fn st_fill_screen(s: ScreenState) -> ScreenState {
    ScreenState {
        cells: Seq::new(
            s.cells.len(),
            |i: int|
                if 80 <= i < 2000 {
                    ScreenChar { ascii_character: 32, colour_code: s.colour }
                } else {
                    s.cells[i]
                },
        ),
        ..s
    }
}

/// Moves the write position and updates the cursor register.
pub open spec fn st_set_pos(s: ScreenState, x: int, y: int) -> ScreenState {
    st_update_cursor(ScreenState { x, y, ..s })
}

/// `n` spaces.
pub open spec fn spaces(n: int) -> Seq<u8> {
    Seq::new(n as nat, |i: int| 32u8)
}

/// Writes `bytes` on the status line (row 0) in `colour`, pads the line with
/// spaces, and puts the position and colour back.
pub open spec fn st_first_line(s: ScreenState, bytes: Seq<u8>, colour: ColourCode) -> ScreenState {
    let s1 = st_set_pos(ScreenState { colour, ..s }, 0, 0);
    let s2 = st_update_cursor(st_write_bytes(s1, bytes));
    let s3 = st_write_bytes(s2, spaces(80 - bytes.len()));
    let s4 = st_set_pos(s3, s.x, s.y);
    ScreenState { colour: s.colour, ..s4 }
}

/// The text of rows 1 to 24, row by row.
pub open spec fn screen_text(cells: Seq<ScreenChar>) -> Seq<u8> {
    Seq::new(1920, |k: int| cells[80 + k].ascii_character)
}

proof fn lemma_cell_index(x: int, y: int)
    requires
        0 <= x < 80,
        0 <= y < 25,
    ensures
        0 <= cell_index(x, y) < 2000,
{
}

impl Writer {
    /// The text memory has all its cells and the flipped cell is on screen.
    pub open spec fn wf(&self) -> bool {
        &&& self.buffer.chars@.len() == MAPPED_CELLS
        &&& self.flipped.x < 80
        &&& self.flipped.y < 25
    }

    /// A writer over the text memory `buffer`: write position (0, 1), white
    /// on black, flipped cell (0, 0), and the status line and rows 1 to 24
    /// blanked.
    pub fn new(buffer: Buffer) -> (w: Writer)
        requires
            buffer.chars@.len() == MAPPED_CELLS,
        ensures
            w.wf(),
            w@ == st_fill_screen(
                st_fill_row(
                    ScreenState {
                        x: 0,
                        y: 1,
                        colour: ColourCode(15),
                        flipped_x: 0,
                        flipped_y: 0,
                        cells: buffer.chars@,
                        cursor: None,
                    },
                    0,
                ),
            ),
    {
        let mut writer = Writer {
            pos: Pos { x: 0, y: 1 },
            colour_code: ColourCode::new(Colour::White, Colour::Black),
            buffer,
            flipped: Pos { x: 0, y: 0 },
            cursor: None,
        };
        writer.fill_row(0);
        writer.fill_screen();
        writer
    }

    /// Writes the linear position to the cursor register (low byte, then
    /// high byte).
    fn update_cursor(&mut self)
        requires
            cell_index(old(self).pos.x as int, old(self).pos.y as int) <= usize::MAX,
        ensures
            final(self)@ == st_update_cursor(old(self)@),
            final(self).buffer.chars@.len() == old(self).buffer.chars@.len(),
            final(self).flipped == old(self).flipped,
    {
        let pos = self.pos.y * BUFFER_WIDTH + self.pos.x;
        let low: u8 = (pos & 0xFF) as u8;
        let high: u8 = ((pos >> 8) & 0xFF) as u8;
        let value: u16 = (high as u16) * 256 + (low as u16);
        assert(value == pos % 65536) by (bit_vector)
            requires
                low == (pos & 0xFF) as u8,
                high == ((pos >> 8) & 0xFF) as u8,
                value == (high as u16) * 256 + (low as u16),
        ;
        self.cursor = Some(value);
    }

    /// Swaps the colours of the cell at `(x, y)` and makes it the flipped
    /// cell.
    pub fn flip_bit(&mut self, x: usize, y: usize)
        requires
            old(self).wf(),
            x < BUFFER_WIDTH,
            y < BUFFER_HEIGHT,
        ensures
            final(self).wf(),
            final(self)@ == st_flip(old(self)@, x as int, y as int),
    {
        let idx = y * BUFFER_WIDTH + x;
        let mut origin = self.buffer.chars[idx];
        origin.colour_code.flip();
        self.flipped.x = x;
        self.flipped.y = y;
        self.buffer.chars.set(idx, origin);
    }

    /// Scrolls the text up by one row below the status line: rows 1 to 23
    /// take the contents of rows 2 to 24 and the bottom row is blanked.
    fn scroll(&mut self)
        requires
            old(self).wf(),
        ensures
            final(self).wf(),
            final(self)@ == (ScreenState { cells: scrolled(old(self)@.cells, old(self)@.colour), ..old(self)@ }),
    {
        let mut k: usize = 80;
        while k < 1920
            invariant
                80 <= k <= 1920,
                self.wf(),
                self.pos == old(self).pos,
                self.flipped == old(self).flipped,
                self.colour_code == old(self).colour_code,
                self.cursor == old(self).cursor,
                forall|i: int| 0 <= i < MAPPED_CELLS && !(80 <= i < k) ==> self.buffer.chars@[i] == old(
                    self,
                ).buffer.chars@[i],
                forall|i: int| 80 <= i < k ==> self.buffer.chars@[i] == old(self).buffer.chars@[i + 80],
            decreases 1920 - k,
        {
            let c = self.buffer.chars[k + 80];
            self.buffer.chars.set(k, c);
            k = k + 1;
        }
        self.fill_row(BUFFER_HEIGHT - 1);
        assert(self.buffer.chars@ =~= scrolled(old(self).buffer.chars@, old(self).colour_code));
    }

    /// Moves to the start of the next line, scrolling the screen up when the
    /// bottom is passed.
    fn new_line(&mut self)
        requires
            old(self).wf(),
            old(self).pos.y < BUFFER_HEIGHT,
        ensures
            final(self).wf(),
            final(self)@ == st_new_line(old(self)@),
    {
        self.pos.y += 1;
        self.pos.x = 0;
        let fx = self.flipped.x;
        let fy = self.flipped.y;
        self.flip_bit(fx, fy);
        if self.pos.y >= BUFFER_HEIGHT {
            self.scroll();
            self.pos.y -= 1;
        }
        let fx = self.flipped.x;
        let fy = self.flipped.y;
        self.flip_bit(fx, fy);
        self.update_cursor();
    }

    /// Writes a byte at the current position (the character arm of
    /// `write_byte`).
    fn put_byte(&mut self, byte: u8, cursor: bool)
        requires
            old(self).wf(),
            st_ok(old(self)@),
        ensures
            final(self).wf(),
            final(self)@ == st_put(old(self)@, byte, cursor),
    {
        if self.pos.x >= BUFFER_WIDTH {
            self.new_line();
        }
        let col = self.pos.x;
        let row = self.pos.y;
        let mut colour_code = self.colour_code;
        if col == self.flipped.x && row == self.flipped.y {
            colour_code.flip();
        }
        proof {
            lemma_cell_index(col as int, row as int);
        }
        self.buffer.chars.set(row * BUFFER_WIDTH + col, ScreenChar { ascii_character: byte, colour_code });
        self.pos.x += 1;
        if cursor {
            self.update_cursor();
        }
    }

    /// Writes one byte: a newline moves to the next line, a backspace blanks
    /// the previous position and moves back to it, anything else is shown.
    /// With `cursor` set, the cursor register follows a shown character.
    pub fn write_byte(&mut self, byte: u8, cursor: bool)
        requires
            old(self).wf(),
            st_ok(old(self)@),
        ensures
            final(self).wf(),
            st_ok(final(self)@),
            final(self)@ == st_write_byte(old(self)@, byte, cursor),
    {
        proof {
            lemma_write_byte_ok(old(self)@, byte, cursor);
        }
        if byte == 10 {
            self.new_line();
        } else if byte == 8 {
            let mut x = self.pos.x;
            let mut y = self.pos.y;
            if x == 0 {
                if y > 1 {
                    y -= 1;
                    x = BUFFER_WIDTH - 1;
                }
            } else {
                x -= 1;
            }
            self.pos.x = x;
            self.pos.y = y;
            self.put_byte(32, false);
            self.pos.x = x;
            self.pos.y = y;
            self.update_cursor();
        } else {
            self.put_byte(byte, cursor);
        }
    }

    /// Writes the bytes of `bytes` one by one without touching the cursor
    /// register.
    fn write_bytes(&mut self, bytes: &[u8])
        requires
            old(self).wf(),
            st_ok(old(self)@),
        ensures
            final(self).wf(),
            st_ok(final(self)@),
            final(self)@ == st_write_bytes(old(self)@, bytes@),
    {
        let mut i: usize = 0;
        while i < bytes.len()
            invariant
                i <= bytes@.len(),
                self.wf(),
                st_ok(self@),
                self@ == st_write_bytes(old(self)@, bytes@.subrange(0, i as int)),
            decreases bytes@.len() - i,
        {
            self.write_byte(bytes[i], false);
            proof {
                assert(bytes@.subrange(0, i + 1).drop_last() =~= bytes@.subrange(0, i as int));
            }
            i = i + 1;
        }
        assert(bytes@.subrange(0, bytes@.len() as int) =~= bytes@);
    }

    /// Writes a string, then moves the cursor register to the end of it.
    pub fn write_str(&mut self, string: &str)
        requires
            old(self).wf(),
            st_ok(old(self)@),
        ensures
            final(self).wf(),
            st_ok(final(self)@),
            final(self)@ == st_update_cursor(st_write_bytes(old(self)@, string.spec_bytes())),
    {
        self.print_bytes(string.as_bytes());
    }

    /// Writes a byte string, then moves the cursor register to the end of it.
    pub fn print_bytes(&mut self, bytes: &[u8])
        requires
            old(self).wf(),
            st_ok(old(self)@),
        ensures
            final(self).wf(),
            st_ok(final(self)@),
            final(self)@ == st_update_cursor(st_write_bytes(old(self)@, bytes@)),
    {
        self.write_bytes(bytes);
        self.update_cursor();
    }

    /// Blanks row `row` with spaces in the current colour.
    pub fn fill_row(&mut self, row: usize)
        requires
            old(self).wf(),
            row < BUFFER_HEIGHT,
        ensures
            final(self).wf(),
            final(self)@ == st_fill_row(old(self)@, row as int),
    {
        let blank = ScreenChar { ascii_character: 32, colour_code: self.colour_code };
        let mut col: usize = 0;
        while col < BUFFER_WIDTH
            invariant
                col <= BUFFER_WIDTH,
                row < BUFFER_HEIGHT,
                self.wf(),
                blank == (ScreenChar { ascii_character: 32, colour_code: old(self).colour_code }),
                self.pos == old(self).pos,
                self.flipped == old(self).flipped,
                self.colour_code == old(self).colour_code,
                self.cursor == old(self).cursor,
                forall|i: int|
                    0 <= i < MAPPED_CELLS ==> self.buffer.chars@[i] == if row * 80 <= i < row * 80 + col {
                        blank
                    } else {
                        old(self).buffer.chars@[i]
                    },
            decreases BUFFER_WIDTH - col,
        {
            self.buffer.chars.set(row * BUFFER_WIDTH + col, blank);
            col = col + 1;
        }
        assert(self.buffer.chars@ =~= st_fill_row(old(self)@, row as int).cells);
    }

    /// Blanks rows 1 to 24 with spaces in the current colour.
    pub fn fill_screen(&mut self)
        requires
            old(self).wf(),
        ensures
            final(self).wf(),
            final(self)@ == st_fill_screen(old(self)@),
    {
        let mut row: usize = 1;
        while row < BUFFER_HEIGHT
            invariant
                1 <= row <= BUFFER_HEIGHT,
                self.wf(),
                self.pos == old(self).pos,
                self.flipped == old(self).flipped,
                self.colour_code == old(self).colour_code,
                self.cursor == old(self).cursor,
                forall|i: int|
                    0 <= i < MAPPED_CELLS ==> self.buffer.chars@[i] == if 80 <= i < row * 80 {
                        ScreenChar { ascii_character: 32, colour_code: old(self).colour_code }
                    } else {
                        old(self).buffer.chars@[i]
                    },
            decreases BUFFER_HEIGHT - row,
        {
            self.fill_row(row);
            row = row + 1;
        }
        assert(self.buffer.chars@ =~= st_fill_screen(old(self)@).cells);
    }

    /// Sets the colour used for what is written next.
    pub fn set_colour(&mut self, colour: ColourCode)
        ensures
            final(self)@ == (ScreenState { colour, ..old(self)@ }),
            final(self).buffer.chars@.len() == old(self).buffer.chars@.len(),
            final(self).flipped == old(self).flipped,
    {
        self.colour_code = colour;
    }

    /// Moves the write position and the cursor register.
    pub fn set_pos(&mut self, x: usize, y: usize)
        requires
            cell_index(x as int, y as int) <= usize::MAX,
        ensures
            final(self)@ == st_set_pos(old(self)@, x as int, y as int),
            final(self).buffer.chars@.len() == old(self).buffer.chars@.len(),
            final(self).flipped == old(self).flipped,
    {
        self.pos = Pos { x, y };
        self.update_cursor();
    }

    /// The write position.
    pub fn get_pos(&self) -> (p: (usize, usize))
        ensures
            p == (self.pos.x, self.pos.y),
    {
        (self.pos.x, self.pos.y)
    }

    /// The text of rows 1 to 24, row by row.
    pub fn dump_screen(&self) -> (screen: Vec<u8>)
        requires
            self.wf(),
        ensures
            screen@ == screen_text(self@.cells),
    {
        let mut screen: Vec<u8> = Vec::with_capacity(2048);
        let mut row: usize = 1;
        while row < BUFFER_HEIGHT
            invariant
                1 <= row <= BUFFER_HEIGHT,
                self.wf(),
                screen@.len() == (row - 1) * 80,
                forall|k: int| 0 <= k < screen@.len() ==> screen@[k] == self.buffer.chars@[80 + k].ascii_character,
            decreases BUFFER_HEIGHT - row,
        {
            let mut col: usize = 0;
            while col < BUFFER_WIDTH
                invariant
                    col <= BUFFER_WIDTH,
                    1 <= row < BUFFER_HEIGHT,
                    self.wf(),
                    screen@.len() == (row - 1) * 80 + col,
                    forall|k: int|
                        0 <= k < screen@.len() ==> screen@[k] == self.buffer.chars@[80 + k].ascii_character,
                decreases BUFFER_WIDTH - col,
            {
                let chr = self.buffer.chars[row * BUFFER_WIDTH + col];
                screen.push(chr.ascii_character);
                col = col + 1;
            }
            row = row + 1;
        }
        assert(screen@ =~= screen_text(self@.cells));
        screen
    }

    /// Fills rows 1 to 24 with bytes taken from the end of `screen`, in the
    /// current colour: the first cell of row 1 gets the last byte.
    pub fn write_screen(&mut self, screen: Vec<u8>)
        requires
            old(self).wf(),
            screen@.len() >= 1920,
        ensures
            final(self).wf(),
            final(self)@ == (ScreenState {
                cells: Seq::new(
                    MAPPED_CELLS as nat,
                    |i: int|
                        if 80 <= i < 2000 {
                            ScreenChar {
                                ascii_character: screen@[screen@.len() - 1 - (i - 80)],
                                colour_code: old(self).colour_code,
                            }
                        } else {
                            old(self)@.cells[i]
                        },
                ),
                ..old(self)@
            }),
    {
        let mut screen = screen;
        let ghost orig = screen@;
        let mut row: usize = 1;
        while row < BUFFER_HEIGHT
            invariant
                1 <= row <= BUFFER_HEIGHT,
                self.wf(),
                orig.len() >= 1920,
                screen@ == orig.subrange(0, orig.len() - (row - 1) * 80),
                self.pos == old(self).pos,
                self.flipped == old(self).flipped,
                self.colour_code == old(self).colour_code,
                self.cursor == old(self).cursor,
                forall|i: int|
                    0 <= i < MAPPED_CELLS ==> self.buffer.chars@[i] == if 80 <= i < row * 80 {
                        ScreenChar { ascii_character: orig[orig.len() - 1 - (i - 80)], colour_code: old(self).colour_code }
                    } else {
                        old(self).buffer.chars@[i]
                    },
            decreases BUFFER_HEIGHT - row,
        {
            let mut col: usize = 0;
            while col < BUFFER_WIDTH
                invariant
                    col <= BUFFER_WIDTH,
                    1 <= row < BUFFER_HEIGHT,
                    self.wf(),
                    orig.len() >= 1920,
                    screen@ == orig.subrange(0, orig.len() - (row - 1) * 80 - col),
                    self.pos == old(self).pos,
                    self.flipped == old(self).flipped,
                    self.colour_code == old(self).colour_code,
                    self.cursor == old(self).cursor,
                    forall|i: int|
                        0 <= i < MAPPED_CELLS ==> self.buffer.chars@[i] == if 80 <= i < row * 80 + col {
                            ScreenChar {
                                ascii_character: orig[orig.len() - 1 - (i - 80)],
                                colour_code: old(self).colour_code,
                            }
                        } else {
                            old(self).buffer.chars@[i]
                        },
                decreases BUFFER_WIDTH - col,
            {
                let byte = screen.pop().unwrap();
                self.buffer.chars.set(
                    row * BUFFER_WIDTH + col,
                    ScreenChar { ascii_character: byte, colour_code: self.colour_code },
                );
                col = col + 1;
            }
            row = row + 1;
        }
        assert(self.buffer.chars@ =~= Seq::new(
            MAPPED_CELLS as nat,
            |i: int|
                if 80 <= i < 2000 {
                    ScreenChar {
                        ascii_character: orig[orig.len() - 1 - (i - 80)],
                        colour_code: old(self).colour_code,
                    }
                } else {
                    old(self)@.cells[i]
                },
        ));
    }

    /// Shows `string` on the status line (row 0) in `colour`, padded with
    /// spaces to the full width; the write position and colour are put back
    /// and the cursor register ends at the restored position.
    pub fn write_first_line(&mut self, string: &str, colour: ColourCode)
        requires
            old(self).wf(),
            st_ok(old(self)@),
            string.spec_bytes().len() <= BUFFER_WIDTH,
        ensures
            final(self).wf(),
            st_ok(final(self)@),
            final(self)@ == st_first_line(old(self)@, string.spec_bytes(), colour),
    {
        self.first_line_bytes(string.as_bytes(), colour);
    }

    /// `write_first_line` for a byte string.
    pub fn first_line_bytes(&mut self, bytes: &[u8], colour: ColourCode)
        requires
            old(self).wf(),
            st_ok(old(self)@),
            bytes@.len() <= BUFFER_WIDTH,
        ensures
            final(self).wf(),
            st_ok(final(self)@),
            final(self)@ == st_first_line(old(self)@, bytes@, colour),
    {
        let x = self.pos.x;
        let y = self.pos.y;
        let saved = self.colour_code;
        self.colour_code = colour;
        self.set_pos(0, 0);
        self.write_bytes(bytes);
        self.update_cursor();
        let pad = BUFFER_WIDTH - bytes.len();
        let mut k: usize = 0;
        let ghost s2 = self@;
        while k < pad
            invariant
                k <= pad,
                pad == 80 - bytes@.len(),
                self.wf(),
                st_ok(s2),
                st_ok(self@),
                self@ == st_write_bytes(s2, spaces(k as int)),
            decreases pad - k,
        {
            self.write_byte(32, false);
            proof {
                assert(spaces(k + 1).drop_last() =~= spaces(k as int));
            }
            k = k + 1;
        }
        self.set_pos(x, y);
        self.colour_code = saved;
    }
}

} // verus!

verus! {

/// Flipping the same cell twice gives back the original text memory.
pub proof fn law_flip_twice_restores(s: ScreenState, x: int, y: int)
    requires
        0 <= x < 80,
        0 <= y < 25,
        s.cells.len() == MAPPED_CELLS,
    ensures
        st_flip(st_flip(s, x, y), x, y).cells == s.cells,
{
    let c = s.cells[cell_index(x, y)];
    crate::vga_buffer::colour::lemma_flip_involutive(c.colour_code.0);
    assert(st_flip(st_flip(s, x, y), x, y).cells =~= s.cells);
}

/// Writing back the dumped screen text shows rows 1 to 24 with their text in
/// reverse order.
pub proof fn law_write_back_dump_reverses(cells: Seq<ScreenChar>, colour: ColourCode)
    requires
        cells.len() == MAPPED_CELLS,
    ensures
        ({
            let dump = screen_text(cells);
            let written = Seq::new(
                MAPPED_CELLS as nat,
                |i: int|
                    if 80 <= i < 2000 {
                        ScreenChar { ascii_character: dump[dump.len() - 1 - (i - 80)], colour_code: colour }
                    } else {
                        cells[i]
                    },
            );
            screen_text(written) == dump.reverse()
        }),
{
    let dump = screen_text(cells);
    let written = Seq::new(
        MAPPED_CELLS as nat,
        |i: int|
            if 80 <= i < 2000 {
                ScreenChar { ascii_character: dump[dump.len() - 1 - (i - 80)], colour_code: colour }
            } else {
                cells[i]
            },
    );
    assert(screen_text(written) =~= dump.reverse());
}

/// Writing a byte keeps the writer in a state it can keep writing in.
pub proof fn law_write_byte_keeps_state_ok(s: ScreenState, byte: u8, cursor: bool)
    requires
        st_ok(s),
    ensures
        st_ok(st_write_byte(s, byte, cursor)),
{
    lemma_write_byte_ok(s, byte, cursor);
}

} // verus!

verus! {

/// No newline and no backspace among the bytes.
pub open spec fn plain_bytes(bytes: Seq<u8>) -> bool {
    forall|i: int| 0 <= i < bytes.len() ==> #[trigger] bytes[i] != 10 && bytes[i] != 8
}

/// The colour a byte is written in at cell `i`: the colours are swapped on
/// the flipped cell.
pub open spec fn cell_colour(s: ScreenState, i: int) -> ColourCode {
    if i == cell_index(s.flipped_x, s.flipped_y) {
        ColourCode(flipped(s.colour.0))
    } else {
        s.colour
    }
}

/// Writing plain bytes that fit on the current line puts them in the cells
/// from the write position on and moves the position past them.
proof fn lemma_write_plain_line(s: ScreenState, bytes: Seq<u8>)
    requires
        st_ok(s),
        s.x + bytes.len() <= 80,
        plain_bytes(bytes),
    ensures
        ({
            let r = st_write_bytes(s, bytes);
            let base = cell_index(s.x, s.y);
            &&& r.x == s.x + bytes.len()
            &&& r.y == s.y
            &&& r.colour == s.colour
            &&& r.flipped_x == s.flipped_x
            &&& r.flipped_y == s.flipped_y
            &&& r.cursor == s.cursor
            &&& r.cells.len() == s.cells.len()
            &&& forall|i: int|
                0 <= i < s.cells.len() ==> #[trigger] r.cells[i] == if base <= i < base + bytes.len() {
                    ScreenChar { ascii_character: bytes[i - base], colour_code: cell_colour(s, i) }
                } else {
                    s.cells[i]
                }
        }),
    decreases bytes.len(),
{
    if bytes.len() > 0 {
        let prefix = bytes.drop_last();
        assert(plain_bytes(prefix)) by {
            assert forall|i: int| 0 <= i < prefix.len() implies #[trigger] prefix[i] != 10 && prefix[i] != 8 by {
                assert(prefix[i] == bytes[i]);
            }
        }
        lemma_write_plain_line(s, prefix);
        assert(bytes[bytes.len() - 1] != 10 && bytes[bytes.len() - 1] != 8);
    }
}

/// The status line changes row 0 only: it shows the bytes followed by
/// spaces, in the given colour (swapped on the flipped cell), and the write
/// position, the colour and the rest of the screen are as before.
pub proof fn law_status_line_only_changes_row_zero(s: ScreenState, bytes: Seq<u8>, colour: ColourCode)
    requires
        st_ok(s),
        bytes.len() <= 80,
        plain_bytes(bytes),
    ensures
        ({
            let r = st_first_line(s, bytes, colour);
            let on_status = ScreenState { colour, ..s };
            &&& r.x == s.x
            &&& r.y == s.y
            &&& r.colour == s.colour
            &&& r.flipped_x == s.flipped_x
            &&& r.flipped_y == s.flipped_y
            &&& r.cells.len() == s.cells.len()
            &&& forall|i: int| 80 <= i < s.cells.len() ==> #[trigger] r.cells[i] == s.cells[i]
            &&& forall|i: int|
                0 <= i < 80 ==> #[trigger] r.cells[i] == ScreenChar {
                    ascii_character: if i < bytes.len() { bytes[i] } else { 32u8 },
                    colour_code: cell_colour(on_status, i),
                }
        }),
{
    let s1 = st_set_pos(ScreenState { colour, ..s }, 0, 0);
    lemma_write_plain_line(s1, bytes);
    let s2 = st_update_cursor(st_write_bytes(s1, bytes));
    let pad = spaces(80 - bytes.len());
    assert(plain_bytes(pad));
    lemma_write_plain_line(s2, pad);
}

} // verus!

verus! {

/// A new line never disturbs the status line: row 0 keeps its cells,
/// whether or not the screen scrolls.
pub proof fn law_new_line_keeps_status_line(s: ScreenState)
    requires
        st_ok(s),
    ensures
        forall|i: int| 0 <= i < 80 ==> #[trigger] st_new_line(s).cells[i] == s.cells[i],
{
    let c = s.cells[cell_index(s.flipped_x, s.flipped_y)];
    crate::vga_buffer::colour::lemma_flip_involutive(c.colour_code.0);
}

} // verus!
