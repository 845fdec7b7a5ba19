//! The VGA text console: colors, the cursor, and the 80x25 screen that the
//! terminal writes to.

use vstd::prelude::*;
use vstd::string::StringSliceAdditionalSpecFns;
use vstd::array::array_fill_for_copy_types;

verus! {

pub const SCREEN_HEIGHT: usize = 25;
pub const SCREEN_WIDTH: usize = 80;
/// Number of character cells on the screen.
pub const SCREEN_CELLS: usize = 2000;
/// Physical address of the VGA text buffer.
pub const VGA_BUFFER_ADDR_U64: u64 = 0xb8000;

/// A VGA color
#[derive(Clone, Copy, Debug, PartialEq, Eq)]
pub enum Color {
    Black,
    Blue,
    Green,
    Cyan,
    Red,
    Magenta,
    Brown,
    LightGray,
    DarkGray,
    LightBlue,
    LightGreen,
    LightCyan,
    LightRed,
    Pink,
    Yellow,
    White,
}

/// The 4-bit code of a color.
pub open spec fn color_code(c: Color) -> u8 {
    match c {
        Color::Black => 0,
        Color::Blue => 1,
        Color::Green => 2,
        Color::Cyan => 3,
        Color::Red => 4,
        Color::Magenta => 5,
        Color::Brown => 6,
        Color::LightGray => 7,
        Color::DarkGray => 8,
        Color::LightBlue => 9,
        Color::LightGreen => 10,
        Color::LightCyan => 11,
        Color::LightRed => 12,
        Color::Pink => 13,
        Color::Yellow => 14,
        Color::White => 15,
    }
}

impl Color {
    /// The color's 4-bit code.
    pub fn code(self) -> (r: u8)
        ensures
            r == color_code(self),
            r < 16,
    {
        match self {
            Color::Black => 0,
            Color::Blue => 1,
            Color::Green => 2,
            Color::Cyan => 3,
            Color::Red => 4,
            Color::Magenta => 5,
            Color::Brown => 6,
            Color::LightGray => 7,
            Color::DarkGray => 8,
            Color::LightBlue => 9,
            Color::LightGreen => 10,
            Color::LightCyan => 11,
            Color::LightRed => 12,
            Color::Pink => 13,
            Color::Yellow => 14,
            Color::White => 15,
        }
    }

    /// The color whose code is `code`.
    pub fn from_code(code: u8) -> (c: Color)
        requires
            code < 16,
        ensures
            color_code(c) == code,
    {
        match code {
            0 => Color::Black,
            1 => Color::Blue,
            2 => Color::Green,
            3 => Color::Cyan,
            4 => Color::Red,
            5 => Color::Magenta,
            6 => Color::Brown,
            7 => Color::LightGray,
            8 => Color::DarkGray,
            9 => Color::LightBlue,
            10 => Color::LightGreen,
            11 => Color::LightCyan,
            12 => Color::LightRed,
            13 => Color::Pink,
            14 => Color::Yellow,
            _ => Color::White,
        }
    }
}

/// Two colors with the same code are the same color.
pub proof fn law_color_code_injective(a: Color, b: Color)
    ensures
        color_code(a) == color_code(b) ==> a == b,
{
}

/// Color of single cell, back- and foreground
#[derive(Clone, Copy, Debug, PartialEq, Eq)]
pub struct CellColor(pub u8);

/// The attribute byte of foreground `fg` on background `bg`.
pub open spec fn cell_color_byte(fg: Color, bg: Color) -> u8 {
    (color_code(bg) * 16 + color_code(fg)) as u8
}

impl CellColor {
    pub fn new(foreground: Color, background: Color) -> (r: CellColor)
        ensures
            r.0 == cell_color_byte(foreground, background),
    {
        CellColor(background.code() * 16 + foreground.code())
    }

    /// The color of the low four bits.
    pub fn foreground(self) -> (c: Color)
        ensures
            color_code(c) == self.0 % 16,
    {
        Color::from_code(self.0 % 16)
    }

    /// The color of the high four bits.
    pub fn background(self) -> (c: Color)
        ensures
            color_code(c) == self.0 / 16,
    {
        Color::from_code(self.0 / 16)
    }

    /// The same colors with fore- and background swapped.
    pub fn invert(self) -> (r: CellColor)
        ensures
            r.0 == (self.0 % 16) * 16 + self.0 / 16,
    {
        CellColor::new(self.background(), self.foreground())
    }
}

/// A color made of two colors gives them back.
pub proof fn law_cell_color_parts(fg: Color, bg: Color)
    ensures
        cell_color_byte(fg, bg) % 16 == color_code(fg),
        cell_color_byte(fg, bg) / 16 == color_code(bg),
{
}

/// Inverting twice gives the color back.
pub proof fn law_invert_involutive(c: u8)
    ensures
        ({
            let once = ((c % 16) * 16 + c / 16) as u8;
            (once % 16) * 16 + once / 16 == c
        }),
{
}

/// White on black, the terminal's default.
pub open spec fn default_color() -> CellColor {
    CellColor(0x0f)
}

/// Character cell: one character and color in screen
#[derive(Clone, Copy, Debug, PartialEq, Eq)]
pub struct CharCell {
    pub character: u8,
    pub color: CellColor,
}

/// A space in white on black.
pub open spec fn blank_cell() -> CharCell {
    CharCell { character: 0x20, color: default_color() }
}

/// The packed cursor word holding `row` in its upper and `col` in its
/// lower half.
pub open spec fn pack(row: int, col: int) -> int {
    row * 0x1_0000_0000 + col
}

/// Cursor: a row and a column packed in one word.
pub struct Cursor {
    row_col: u64,
}

impl Cursor {
    #[verifier::type_invariant]
    spec fn in_screen(&self) -> bool {
        &&& self.row_col / 0x1_0000_0000 < SCREEN_HEIGHT
        &&& self.row_col % 0x1_0000_0000 < SCREEN_WIDTH
    }

    /// Current row.
    pub closed spec fn row(&self) -> int {
        (self.row_col / 0x1_0000_0000) as int
    }

    /// Current column.
    pub closed spec fn col(&self) -> int {
        (self.row_col % 0x1_0000_0000) as int
    }

    pub fn new() -> (c: Self)
        ensures
            c.row() == 0,
            c.col() == 0,
    {
        Cursor { row_col: 0 }
    }

    /// Moves to the given place, returning the place before.
    fn update_position(&mut self, row: usize, col: usize) -> (r: (usize, usize))
        requires
            row < SCREEN_HEIGHT,
            col < SCREEN_WIDTH,
        ensures
            final(self).row() == row,
            final(self).col() == col,
            r.0 == old(self).row(),
            r.1 == old(self).col(),
    {
        proof {
            use_type_invariant(&*self);
        }
        let old_value = self.row_col;
        self.row_col = (row as u64) * 0x1_0000_0000 + (col as u64);
        ((old_value / 0x1_0000_0000) as usize, (old_value % 0x1_0000_0000) as usize)
    }

    /// Next character, returns true on "overflow"
    pub fn next_col(&mut self) -> (overflow: bool)
        ensures
            overflow == (old(self).col() + 1 >= SCREEN_WIDTH),
            final(self).row() == old(self).row(),
            final(self).col() == (if overflow {
                old(self).col()
            } else {
                old(self).col() + 1
            }),
    {
        let (row, col) = self.position();
        if col + 1 < SCREEN_WIDTH {
            self.update_position(row, col + 1);
            false
        } else {
            self.update_position(row, col);
            true
        }
    }

    /// Previous character, goes to previous line if needed
    pub fn prev(&mut self)
        ensures
            final(self).row() == spec_prev(old(self).row(), old(self).col()).0,
            final(self).col() == spec_prev(old(self).row(), old(self).col()).1,
    {
        let (mut row, mut col) = self.position();
        if col > 0 {
            col = col - 1;
        } else if row > 0 {
            row = row - 1;
            col = SCREEN_WIDTH - 1;
        }
        self.update_position(row, col);
    }

    /// New line
    /// # Returns
    /// true if terminal should be scrolled
    pub fn newline(&mut self) -> (scroll: bool)
        ensures
            scroll == (old(self).row() == SCREEN_HEIGHT - 1),
            final(self).row() == (if scroll {
                old(self).row()
            } else {
                old(self).row() + 1
            }),
            final(self).col() == 0,
    {
        let (row, _col) = self.position();
        if row < SCREEN_HEIGHT - 1 {
            self.update_position(row + 1, 0);
            false
        } else {
            self.update_position(row, 0);
            true
        }
    }

    /// Moves to column `col` of the current row.
    pub fn set_col(&mut self, col: usize)
        requires
            col < SCREEN_WIDTH,
        ensures
            final(self).row() == old(self).row(),
            final(self).col() == col,
    {
        proof {
            use_type_invariant(&*self);
        }
        let v = self.row_col;
        self.row_col = (v / 0x1_0000_0000) * 0x1_0000_0000 + (col as u64);
    }

    /// Moves to row `row`, column `col`.
    pub fn set_position(&mut self, row: usize, col: usize)
        requires
            row < SCREEN_HEIGHT,
            col < SCREEN_WIDTH,
        ensures
            final(self).row() == row,
            final(self).col() == col,
    {
        self.row_col = (row as u64) * 0x1_0000_0000 + (col as u64);
    }

    /// The current row and column.
    pub fn position(&self) -> (r: (usize, usize))
        ensures
            r.0 == self.row(),
            r.1 == self.col(),
            r.0 < SCREEN_HEIGHT,
            r.1 < SCREEN_WIDTH,
    {
        proof {
            use_type_invariant(self);
        }
        let value = self.row_col;
        ((value / 0x1_0000_0000) as usize, (value % 0x1_0000_0000) as usize)
    }
}

/// Where the cursor goes one place back: left, or to the end of the row
/// above, or nowhere from the top left corner.
pub open spec fn spec_prev(row: int, col: int) -> (int, int) {
    if col > 0 {
        (row, col - 1)
    } else if row > 0 {
        (row - 1, SCREEN_WIDTH - 1)
    } else {
        (row, col)
    }
}

/// Index of the cell at `row`, `col`.
pub open spec fn cell_index(row: int, col: int) -> int {
    row * SCREEN_WIDTH + col
}

/// The screen with every row moved up by one and a blank bottom row.
pub open spec fn scrolled(s: Seq<CharCell>) -> Seq<CharCell> {
    Seq::new(
        SCREEN_CELLS as nat,
        |i: int|
            if i < SCREEN_CELLS - SCREEN_WIDTH {
                s[i + SCREEN_WIDTH]
            } else {
                blank_cell()
            },
    )
}

/// The screen with row `row` filled with spaces of `color`.
pub open spec fn line_cleared(s: Seq<CharCell>, row: int, color: CellColor) -> Seq<CharCell> {
    Seq::new(
        s.len(),
        |i: int|
            if row * SCREEN_WIDTH <= i < (row + 1) * SCREEN_WIDTH {
                CharCell { character: 0x20, color }
            } else {
                s[i]
            },
    )
}

/// Screen and cursor place of a terminal.
pub struct TermState {
    pub screen: Seq<CharCell>,
    pub row: int,
    pub col: int,
}

/// After a newline: one row down, or the screen scrolled on the last row.
pub open spec fn spec_newline(t: TermState) -> TermState {
    if t.row == SCREEN_HEIGHT - 1 {
        TermState { screen: scrolled(t.screen), row: t.row, col: 0 }
    } else {
        TermState { screen: t.screen, row: t.row + 1, col: 0 }
    }
}

/// After printing `byte` in `color` at the cursor: the cell is set, and the
/// cursor moves right, or to a new line after the last column.
pub open spec fn spec_put(t: TermState, byte: u8, color: CellColor) -> TermState {
    let screen = t.screen.update(
        cell_index(t.row, t.col),
        CharCell { character: byte, color },
    );
    if t.col + 1 < SCREEN_WIDTH {
        TermState { screen, row: t.row, col: t.col + 1 }
    } else {
        spec_newline(TermState { screen, row: t.row, col: t.col })
    }
}

/// Moves a state's cursor one place back.
pub open spec fn spec_back(t: TermState) -> TermState {
    TermState { screen: t.screen, row: spec_prev(t.row, t.col).0, col: spec_prev(t.row, t.col).1 }
}

/// After a backspace: back one place, blank it, and back again.
pub open spec fn spec_backspace(t: TermState) -> TermState {
    spec_back(spec_put(spec_back(t), 0x20, default_color()))
}

/// After writing `byte`: newline on `\n`, backspace on 0x08, else printed.
pub open spec fn spec_write_byte(t: TermState, byte: u8, color: CellColor) -> TermState {
    if byte == 0x0a {
        spec_newline(t)
    } else if byte == 0x08 {
        spec_backspace(t)
    } else {
        spec_put(t, byte, color)
    }
}

/// After writing each of `bs` in `color`.
pub open spec fn spec_write_bytes_in(t: TermState, bs: Seq<u8>, color: CellColor) -> TermState
    decreases bs.len(),
{
    if bs.len() == 0 {
        t
    } else {
        spec_write_byte(spec_write_bytes_in(t, bs.drop_last(), color), bs.last(), color)
    }
}

/// After writing each of `bs` in white on black.
pub open spec fn spec_write_bytes(t: TermState, bs: Seq<u8>) -> TermState {
    spec_write_bytes_in(t, bs, default_color())
}

/// The screen and its cursor.
pub struct Terminal {
    cursor: Cursor,
    buffer: [CharCell; 2000],
}

impl Terminal {

    /// The state a terminal stands in.
    pub closed spec fn state(&self) -> TermState {
        TermState { screen: self.buffer@, row: self.cursor.row(), col: self.cursor.col() }
    }

    /// The screen cells, row by row.
    pub closed spec fn screen(&self) -> Seq<CharCell> {
        self.buffer@
    }

    /// A terminal over a blank screen with the cursor at the top left.
    pub fn new() -> (t: Terminal)
        ensures
            t.state().screen == Seq::new(SCREEN_CELLS as nat, |i: int| blank_cell()),
            t.state().row == 0,
            t.state().col == 0,
    {
        let buffer = array_fill_for_copy_types::<CharCell, 2000>(
            CharCell { character: 0x20, color: CellColor(0x0f) },
        );
        proof {
            assert(buffer@ =~= Seq::new(SCREEN_CELLS as nat, |i: int| blank_cell()));
        }
        Terminal { cursor: Cursor::new(), buffer }
    }

    /// The cell at `row`, `col`.
    pub fn cell(&self, row: usize, col: usize) -> (c: CharCell)
        requires
            row < SCREEN_HEIGHT,
            col < SCREEN_WIDTH,
        ensures
            c == self.state().screen[cell_index(row as int, col as int)],
    {
        self.buffer[row * SCREEN_WIDTH + col]
    }

    /// The cursor's row and column.
    pub fn cursor_position(&self) -> (r: (usize, usize))
        ensures
            r.0 == self.state().row,
            r.1 == self.state().col,
    {
        self.cursor.position()
    }

    fn set_cell(&mut self, index: usize, cell: CharCell)
        requires
            index < SCREEN_CELLS,
        ensures
            final(self).state() == (TermState {
                screen: old(self).state().screen.update(index as int, cell),
                ..old(self).state()
            }),
    {
        self.buffer[index] = cell;
    }

    /// Init terminal
    pub fn reset(&mut self)
        ensures
            final(self).state().screen == Seq::new(
                SCREEN_CELLS as nat,
                |i: int| blank_cell(),
            ),
            final(self).state().row == 0,
            final(self).state().col == 0,
    {
        self.clear(CellColor(0x0f));
    }

    /// Clear screen
    pub fn clear(&mut self, color: CellColor)
        ensures
            final(self).state().screen == Seq::new(
                SCREEN_CELLS as nat,
                |i: int| CharCell { character: 0x20, color },
            ),
            final(self).state().row == 0,
            final(self).state().col == 0,
    {
        self.cursor.set_position(0, 0);
        let mut i: usize = 0;
        while i < SCREEN_CELLS
            invariant
                i <= SCREEN_CELLS,
                self.state().row == 0,
                self.state().col == 0,
                self.state().screen.len() == SCREEN_CELLS,
                forall|j: int|
                    0 <= j < i ==> self.state().screen[j] == (CharCell { character: 0x20, color }),
            decreases SCREEN_CELLS - i,
        {
            self.set_cell(i, CharCell { character: 0x20, color });
            i = i + 1;
        }
        proof {
            assert(self.state().screen =~= Seq::new(
                SCREEN_CELLS as nat,
                |i: int| CharCell { character: 0x20, color },
            ));
        }
    }

    /// Clear the current line
    pub fn clear_line(&mut self, color: CellColor)
        ensures
            final(self).state().screen == line_cleared(
                old(self).state().screen,
                old(self).state().row,
                color,
            ),
            final(self).state().row == old(self).state().row,
            final(self).state().col == 0,
    {
        let (row, _) = self.cursor.position();
        let ghost s0 = self.state().screen;
        let mut col: usize = 0;
        while col < SCREEN_WIDTH
            invariant
                col <= SCREEN_WIDTH,
                row < SCREEN_HEIGHT,
                self.state().row == row,
                self.state().col == old(self).state().col,
                row == old(self).state().row,
                s0 == old(self).state().screen,
                s0.len() == SCREEN_CELLS,
                self.state().screen.len() == SCREEN_CELLS,
                forall|j: int|
                    0 <= j < SCREEN_CELLS ==> self.state().screen[j] == (if row * SCREEN_WIDTH
                        <= j < row * SCREEN_WIDTH + col {
                        CharCell { character: 0x20, color }
                    } else {
                        s0[j]
                    }),
            decreases SCREEN_WIDTH - col,
        {
            self.set_cell(row * SCREEN_WIDTH + col, CharCell { character: 0x20, color });
            col = col + 1;
        }
        self.cursor.set_col(0);
        proof {
            assert(self.state().screen =~= line_cleared(s0, row as int, color));
        }
    }

    /// Scroll up one line
    fn scroll_line(&mut self)
        ensures
            final(self).state() == (TermState {
                screen: scrolled(old(self).state().screen),
                ..old(self).state()
            }),
    {
        let ghost s0 = self.state().screen;
        let mut i: usize = 0;
        while i < SCREEN_CELLS - SCREEN_WIDTH
            invariant
                i <= SCREEN_CELLS - SCREEN_WIDTH,
                s0 == old(self).state().screen,
                s0.len() == SCREEN_CELLS,
                self.state().row == old(self).state().row,
                self.state().col == old(self).state().col,
                self.state().screen.len() == SCREEN_CELLS,
                forall|j: int|
                    0 <= j < SCREEN_CELLS ==> self.state().screen[j] == (if j < i {
                        s0[j + SCREEN_WIDTH]
                    } else {
                        s0[j]
                    }),
            decreases SCREEN_CELLS - SCREEN_WIDTH - i,
        {
            let moved = self.buffer[i + SCREEN_WIDTH];
            self.set_cell(i, moved);
            i = i + 1;
        }
        let mut col: usize = 0;
        while col < SCREEN_WIDTH
            invariant
                col <= SCREEN_WIDTH,
                s0 == old(self).state().screen,
                s0.len() == SCREEN_CELLS,
                self.state().row == old(self).state().row,
                self.state().col == old(self).state().col,
                self.state().screen.len() == SCREEN_CELLS,
                forall|j: int|
                    0 <= j < SCREEN_CELLS ==> self.state().screen[j] == (if j < SCREEN_CELLS
                        - SCREEN_WIDTH {
                        s0[j + SCREEN_WIDTH]
                    } else if j < SCREEN_CELLS - SCREEN_WIDTH + col {
                        blank_cell()
                    } else {
                        s0[j]
                    }),
            decreases SCREEN_WIDTH - col,
        {
            self.set_cell(
                SCREEN_CELLS - SCREEN_WIDTH + col,
                CharCell { character: 0x20, color: CellColor(0x0f) },
            );
            col = col + 1;
        }
        proof {
            assert(self.state().screen =~= scrolled(s0));
        }
    }

    /// Newline
    pub fn newline(&mut self)
        ensures
            final(self).state() == spec_newline(old(self).state()),
    {
        let scroll = self.cursor.newline();
        if scroll {
            self.scroll_line();
        }
    }

    fn put_byte(&mut self, byte: u8, color: CellColor)
        ensures
            final(self).state() == spec_put(old(self).state(), byte, color),
    {
        let (row, col) = self.cursor.position();
        self.set_cell(row * SCREEN_WIDTH + col, CharCell { character: byte, color });
        let col_overflows = self.cursor.next_col();
        if col_overflows {
            self.newline();
        }
    }

    /// Write single byte to terminal's stdout
    pub fn write_byte(&mut self, byte: u8, color: CellColor)
        requires
            byte != 0,
        ensures
            final(self).state() == spec_write_byte(old(self).state(), byte, color),
    {
        if byte == 0x0a {
            self.newline();
        } else if byte == 0x8 {
            self.backspace();
        } else {
            self.put_byte(byte, color);
        }
    }

    /// Backspace
    pub fn backspace(&mut self)
        ensures
            final(self).state() == spec_backspace(old(self).state()),
    {
        self.cursor.prev();
        self.put_byte(0x20, CellColor(0x0f));
        self.cursor.prev();
    }

    /// Writes each byte of `bytes` in `color`.
    pub fn write_bytes_in(&mut self, bytes: &[u8], color: CellColor)
        requires
            forall|i: int| 0 <= i < bytes@.len() ==> bytes@[i] != 0,
        ensures
            final(self).state() == spec_write_bytes_in(old(self).state(), bytes@, color),
    {
        let mut i: usize = 0;
        while i < bytes.len()
            invariant
                i <= bytes@.len(),
                forall|j: int| 0 <= j < bytes@.len() ==> bytes@[j] != 0,
                self.state() == spec_write_bytes_in(old(self).state(), bytes@.subrange(0, i as int), color),
            decreases bytes@.len() - i,
        {
            proof {
                assert(bytes@.subrange(0, i + 1).drop_last() =~= bytes@.subrange(0, i as int));
            }
            self.write_byte(bytes[i], color);
            i = i + 1;
        }
        proof {
            assert(bytes@.subrange(0, i as int) =~= bytes@);
        }
    }

    /// Writes each byte of `bytes` in white on black.
    pub fn write_bytes(&mut self, bytes: &[u8])
        requires
            forall|i: int| 0 <= i < bytes@.len() ==> bytes@[i] != 0,
        ensures
            final(self).state() == spec_write_bytes(old(self).state(), bytes@),
    {
        self.write_bytes_in(bytes, CellColor(0x0f));
    }

    /// Writes the bytes of `s` in white on black.
    pub fn write_str(&mut self, s: &str)
        requires
            forall|i: int| 0 <= i < s.spec_bytes().len() ==> s.spec_bytes()[i] != 0,
        ensures
            final(self).state() == spec_write_bytes(old(self).state(), s.spec_bytes()),
    {
        let b = s.as_bytes();
        self.write_bytes(b);
    }
}

/// Prints `text` on `terminal`, white on black.
pub fn print(terminal: &mut Terminal, text: &str)
    requires
        forall|i: int| 0 <= i < text.spec_bytes().len() ==> text.spec_bytes()[i] != 0,
    ensures
        final(terminal).state() == spec_write_bytes(old(terminal).state(), text.spec_bytes()),
{
    terminal.write_str(text);
}

/// Prints `text` on `terminal` in `color`.
pub fn printc(terminal: &mut Terminal, text: &str, color: CellColor)
    requires
        forall|i: int| 0 <= i < text.spec_bytes().len() ==> text.spec_bytes()[i] != 0,
    ensures
        final(terminal).state() == spec_write_bytes_in(old(terminal).state(), text.spec_bytes(), color),
{
    terminal.write_bytes_in(text.as_bytes(), color);
}

} // verus!
