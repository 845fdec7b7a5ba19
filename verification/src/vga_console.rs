//! The text console with a current output color: what it prints is drawn
//! in that color, and so are the blanks it leaves when it clears, scrolls
//! or erases.

use vstd::prelude::*;
use vstd::string::StringSliceAdditionalSpecFns;
use crate::vga_buffer::{cell_index, CellColor, CharCell, Color, SCREEN_CELLS, SCREEN_HEIGHT, SCREEN_WIDTH};

verus! {

/// A space in `color`.
pub open spec fn blank_in(color: CellColor) -> CharCell {
    CharCell { character: 0x20, color }
}

/// The screen with every row moved up by one and a bottom row of blanks
/// in `color`.
pub open spec fn scrolled_in(s: Seq<CharCell>, color: CellColor) -> Seq<CharCell> {
    Seq::new(
        SCREEN_CELLS as nat,
        |i: int|
            if i < SCREEN_CELLS - SCREEN_WIDTH {
                s[i + SCREEN_WIDTH]
            } else {
                blank_in(color)
            },
    )
}

/// The screen, the cursor and the output color.
pub struct ConsoleState {
    pub screen: Seq<CharCell>,
    pub row: int,
    pub col: int,
    pub color: CellColor,
}

/// After a newline: one row down, or the screen scrolled on the last row.
pub open spec fn console_newline(t: ConsoleState) -> ConsoleState {
    if t.row < SCREEN_HEIGHT - 1 {
        ConsoleState { row: t.row + 1, col: 0, ..t }
    } else {
        ConsoleState { screen: scrolled_in(t.screen, t.color), col: 0, ..t }
    }
}

/// After printing `byte` at the cursor in the output color: the cell is
/// set, and the cursor moves right, or to a new line past the last column.
pub open spec fn console_put(t: ConsoleState, byte: u8) -> ConsoleState {
    let screen = t.screen.update(cell_index(t.row, t.col), CharCell { character: byte, color: t.color });
    if t.col + 1 < SCREEN_WIDTH {
        ConsoleState { screen, col: t.col + 1, ..t }
    } else {
        console_newline(ConsoleState { screen, col: t.col + 1, ..t })
    }
}

/// The cursor one place back, to the end of the row above from the start
/// of a row, and nowhere from the top left corner.
pub open spec fn console_back(t: ConsoleState) -> ConsoleState {
    if t.col > 0 {
        ConsoleState { col: t.col - 1, ..t }
    } else if t.row > 0 {
        ConsoleState { row: t.row - 1, col: SCREEN_WIDTH - 1, ..t }
    } else {
        t
    }
}

/// After writing `byte`: newline on `\n`, backspace on 0x08 (back, blank,
/// back), else printed.
pub open spec fn console_write_byte(t: ConsoleState, byte: u8) -> ConsoleState {
    if byte == 0x0a {
        console_newline(t)
    } else if byte == 0x08 {
        console_back(console_put(console_back(t), 0x20))
    } else {
        console_put(t, byte)
    }
}

/// After writing each of `bs`.
pub open spec fn console_write_bytes(t: ConsoleState, bs: Seq<u8>) -> ConsoleState
    decreases bs.len(),
{
    if bs.len() == 0 {
        t
    } else {
        console_write_byte(console_write_bytes(t, bs.drop_last()), bs.last())
    }
}

/// Cursor
pub struct Cursor {
    /// Current row
    pub row: usize,
    /// Current column
    pub col: usize,
}

impl Cursor {
    /// Next character
    pub fn next(&mut self)
        ensures
            final(self).row == old(self).row,
            final(self).col == (if old(self).col < SCREEN_WIDTH { old(self).col + 1 } else { old(self).col as int }),
    {
        if self.col < SCREEN_WIDTH {
            self.col = self.col + 1;
        }
    }

    /// Previous character; with `row`, to the end of the row above from the
    /// start of a row.
    pub fn prev(&mut self, row: bool)
        ensures
            old(self).col > 0 ==> final(self).row == old(self).row && final(self).col == old(self).col - 1,
            old(self).col == 0 && row && old(self).row > 0 ==> final(self).row == old(self).row - 1
                && final(self).col == SCREEN_WIDTH - 1,
            old(self).col == 0 && !(row && old(self).row > 0) ==> *final(self) == *old(self),
    {
        if self.col > 0 {
            self.col = self.col - 1;
        } else if row && self.row > 0 {
            self.row = self.row - 1;
            self.col = SCREEN_WIDTH - 1;
        }
    }

    /// New line
    /// # Returns
    /// true if terminal should be scrolled
    pub fn newline(&mut self) -> (scroll: bool)
        ensures
            final(self).col == 0,
            scroll == !(old(self).row < SCREEN_HEIGHT - 1),
            !scroll ==> final(self).row == old(self).row + 1,
            scroll ==> final(self).row == old(self).row,
    {
        self.col = 0;
        if self.row < SCREEN_HEIGHT - 1 {
            self.row = self.row + 1;
            false
        } else {
            true
        }
    }

    /// Set position
    pub fn set_position(&mut self, row: usize, col: usize)
        requires
            row < SCREEN_HEIGHT,
            col < SCREEN_WIDTH,
        ensures
            final(self).row == row,
            final(self).col == col,
    {
        self.row = row;
        self.col = col;
    }

    pub fn position(&self) -> (r: (usize, usize))
        ensures
            r == (self.row, self.col),
    {
        (self.row, self.col)
    }
}

/// Terminal: an interface to hardware terminal
pub struct Terminal {
    output_color: CellColor,
    cursor: Cursor,
    buffer: [CharCell; 2000],
}

impl Terminal {
    pub closed spec fn state(&self) -> ConsoleState {
        ConsoleState {
            screen: self.buffer@,
            row: self.cursor.row as int,
            col: self.cursor.col as int,
            color: self.output_color,
        }
    }

    /// The cursor is on the screen.
    pub open spec fn wf(&self) -> bool {
        &&& 0 <= self.state().row < SCREEN_HEIGHT
        &&& 0 <= self.state().col < SCREEN_WIDTH
        &&& self.state().screen.len() == SCREEN_CELLS
    }

    /// A console over a blank screen, white on black, with the cursor at the
    /// top left.
    pub fn new() -> (t: Terminal)
        ensures
            t.wf(),
            t.state().screen == Seq::new(SCREEN_CELLS as nat, |i: int| blank_in(CellColor(0x0f))),
            t.state().row == 0,
            t.state().col == 0,
            t.state().color == CellColor(0x0f),
    {
        let buffer = vstd::array::array_fill_for_copy_types::<CharCell, 2000>(
            CharCell { character: 0x20, color: CellColor(0x0f) },
        );
        proof {
            assert(buffer@ =~= Seq::new(SCREEN_CELLS as nat, |i: int| blank_in(CellColor(0x0f))));
        }
        Terminal { output_color: CellColor::new(Color::White, Color::Black), cursor: Cursor { row: 0, col: 0 }, buffer }
    }

    /// The cell at `row`, `col`.
    pub fn cell(&self, row: usize, col: usize) -> (c: CharCell)
        requires
            self.wf(),
            row < SCREEN_HEIGHT,
            col < SCREEN_WIDTH,
        ensures
            c == self.state().screen[cell_index(row as int, col as int)],
    {
        self.buffer[row * SCREEN_WIDTH + col]
    }

    /// The cursor's row and column.
    pub fn cursor_position(&self) -> (r: (usize, usize))
        ensures
            r.0 == self.state().row,
            r.1 == self.state().col,
    {
        self.cursor.position()
    }

    /// Init terminal
    pub fn reset(&mut self)
        requires
            old(self).wf(),
        ensures
            final(self).wf(),
            final(self).state().color == CellColor(0x0f),
            final(self).state().screen == Seq::new(SCREEN_CELLS as nat, |i: int| blank_in(CellColor(0x0f))),
            final(self).state().row == 0,
            final(self).state().col == 0,
    {
        self.output_color = CellColor::new(Color::White, Color::Black);
        self.clear();
    }

    /// Clear screen
    pub fn clear(&mut self)
        requires
            old(self).wf(),
        ensures
            final(self).wf(),
            final(self).state().color == old(self).state().color,
            final(self).state().screen == Seq::new(SCREEN_CELLS as nat, |i: int| blank_in(old(self).state().color)),
            final(self).state().row == 0,
            final(self).state().col == 0,
    {
        self.cursor.set_position(0, 0);
        let clear_color = self.output_color;
        let mut i: usize = 0;
        while i < SCREEN_CELLS
            invariant
                i <= SCREEN_CELLS,
                self.wf(),
                self.state().row == 0,
                self.state().col == 0,
                self.state().color == clear_color,
                forall|j: int| 0 <= j < i ==> self.state().screen[j] == blank_in(clear_color),
            decreases SCREEN_CELLS - i,
        {
            self.buffer[i] = CharCell { character: 0x20, color: clear_color };
            i = i + 1;
        }
        proof {
            assert(self.state().screen =~= Seq::new(SCREEN_CELLS as nat, |i: int| blank_in(clear_color)));
        }
    }

    /// Write single byte to terminal's stdout
    pub fn write_byte(&mut self, byte: u8)
        requires
            old(self).wf(),
            byte != 0,
        ensures
            final(self).wf(),
            final(self).state() == console_write_byte(old(self).state(), byte),
    {
        if byte == 0x0a {
            self.newline();
        } else if byte == 0x8 {
            self.backspace();
        } else {
            self.put_byte(byte);
        }
    }

    fn put_byte(&mut self, byte: u8)
        requires
            old(self).wf(),
        ensures
            final(self).wf(),
            final(self).state() == console_put(old(self).state(), byte),
    {
        let color = self.output_color;
        let (row, col) = self.cursor.position();
        proof {
            assert(row * SCREEN_WIDTH + col < SCREEN_CELLS) by (nonlinear_arith)
                requires
                    row < 25,
                    col < 80,
            ;
        }
        self.buffer[row * SCREEN_WIDTH + col] = CharCell { character: byte, color };
        self.cursor.next();
        if self.cursor.col >= SCREEN_WIDTH {
            self.newline_raw();
        }
    }

    /// Get color
    pub fn get_color(&mut self) -> (r: CellColor)
        ensures
            r == old(self).state().color,
            *final(self) == *old(self),
    {
        self.output_color
    }

    /// Set color
    pub fn set_color(&mut self, color: CellColor)
        ensures
            final(self).state() == (ConsoleState { color, ..old(self).state() }),
    {
        self.output_color = color;
    }

    /// Newline
    pub fn newline(&mut self)
        requires
            old(self).wf(),
        ensures
            final(self).wf(),
            final(self).state() == console_newline(old(self).state()),
    {
        self.newline_raw();
    }

    /// A newline from a cursor that may stand just past the last column.
    fn newline_raw(&mut self)
        requires
            0 <= old(self).state().row < SCREEN_HEIGHT,
            old(self).state().screen.len() == SCREEN_CELLS,
        ensures
            final(self).wf(),
            final(self).state() == console_newline(old(self).state()),
    {
        let scroll = self.cursor.newline();
        if scroll {
            self.scroll_line();
        }
    }

    /// Backspace
    pub fn backspace(&mut self)
        requires
            old(self).wf(),
        ensures
            final(self).wf(),
            final(self).state() == console_back(console_put(console_back(old(self).state()), 0x20)),
    {
        self.cursor.prev(true);
        self.put_byte(0x20);
        self.cursor.prev(true);
    }

    /// Scroll up one line
    fn scroll_line(&mut self)
        requires
            old(self).state().screen.len() == SCREEN_CELLS,
        ensures
            final(self).state() == (ConsoleState {
                screen: scrolled_in(old(self).state().screen, old(self).state().color),
                ..old(self).state()
            }),
    {
        let ghost s0 = self.state().screen;
        let color = self.output_color;
        let mut i: usize = 0;
        while i < SCREEN_CELLS - SCREEN_WIDTH
            invariant
                i <= SCREEN_CELLS - SCREEN_WIDTH,
                s0 == old(self).state().screen,
                s0.len() == SCREEN_CELLS,
                self.state().row == old(self).state().row,
                self.state().col == old(self).state().col,
                self.state().color == color,
                color == old(self).state().color,
                self.state().screen.len() == SCREEN_CELLS,
                forall|j: int|
                    0 <= j < SCREEN_CELLS ==> self.state().screen[j] == (if j < i {
                        s0[j + SCREEN_WIDTH]
                    } else {
                        s0[j]
                    }),
            decreases SCREEN_CELLS - SCREEN_WIDTH - i,
        {
            let moved = self.buffer[i + SCREEN_WIDTH];
            self.buffer[i] = moved;
            i = i + 1;
        }
        let mut col: usize = 0;
        while col < SCREEN_WIDTH
            invariant
                col <= SCREEN_WIDTH,
                s0 == old(self).state().screen,
                s0.len() == SCREEN_CELLS,
                self.state().row == old(self).state().row,
                self.state().col == old(self).state().col,
                self.state().color == color,
                color == old(self).state().color,
                self.state().screen.len() == SCREEN_CELLS,
                forall|j: int|
                    0 <= j < SCREEN_CELLS ==> self.state().screen[j] == (if j < SCREEN_CELLS - SCREEN_WIDTH {
                        s0[j + SCREEN_WIDTH]
                    } else if j < SCREEN_CELLS - SCREEN_WIDTH + col {
                        blank_in(color)
                    } else {
                        s0[j]
                    }),
            decreases SCREEN_WIDTH - col,
        {
            self.buffer[SCREEN_CELLS - SCREEN_WIDTH + col] = CharCell { character: 0x20, color };
            col = col + 1;
        }
        proof {
            assert(self.state().screen =~= scrolled_in(s0, color));
        }
    }

    /// Writes each byte of `bytes`.
    pub fn write_bytes(&mut self, bytes: &[u8])
        requires
            old(self).wf(),
            forall|i: int| 0 <= i < bytes@.len() ==> bytes@[i] != 0,
        ensures
            final(self).wf(),
            final(self).state() == console_write_bytes(old(self).state(), bytes@),
    {
        let mut i: usize = 0;
        while i < bytes.len()
            invariant
                i <= bytes@.len(),
                self.wf(),
                forall|j: int| 0 <= j < bytes@.len() ==> bytes@[j] != 0,
                self.state() == console_write_bytes(old(self).state(), bytes@.subrange(0, i as int)),
            decreases bytes@.len() - i,
        {
            proof {
                assert(bytes@.subrange(0, i + 1).drop_last() =~= bytes@.subrange(0, i as int));
            }
            self.write_byte(bytes[i]);
            i = i + 1;
        }
        proof {
            assert(bytes@.subrange(0, i as int) =~= bytes@);
        }
    }
}

/// Prints `text` in the console's color.
pub fn print(terminal: &mut Terminal, text: &str)
    requires
        old(terminal).wf(),
        forall|i: int| 0 <= i < text.spec_bytes().len() ==> text.spec_bytes()[i] != 0,
    ensures
        final(terminal).wf(),
        final(terminal).state() == console_write_bytes(old(terminal).state(), text.spec_bytes()),
{
    terminal.write_bytes(text.as_bytes());
}

/// Print with color: `text` in `color`, the console's color left as it was.
pub fn printc(terminal: &mut Terminal, text: &str, color: CellColor)
    requires
        old(terminal).wf(),
        forall|i: int| 0 <= i < text.spec_bytes().len() ==> text.spec_bytes()[i] != 0,
    ensures
        final(terminal).wf(),
        final(terminal).state() == (ConsoleState {
            color: old(terminal).state().color,
            ..console_write_bytes(ConsoleState { color, ..old(terminal).state() }, text.spec_bytes())
        }),
{
    let old_color = terminal.get_color();
    terminal.set_color(color);
    terminal.write_bytes(text.as_bytes());
    terminal.set_color(old_color);
}

} // verus!
