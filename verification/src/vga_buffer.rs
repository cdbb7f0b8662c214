//! Text on the VGA text-mode screen (80 x 25 cells): colours, writing at the
//! current row (the bottom row, or from the top after a clear to the top),
//! line feed with scrolling, backspace and the cursor position.
//!
//! `Writer` holds the whole screen as a sequence of cells in row-major
//! order; the program copies it to the memory-mapped video buffer.

use vstd::prelude::*;
use vstd::string::StringSliceAdditionalSpecFns;
use vstd::utf8::encode_utf8;

verus! {

/// Number of text rows on the screen.
pub const BUFFER_HEIGHT: usize = 25;
/// Number of text columns on the screen.
pub const BUFFER_WIDTH: usize = 80;
/// Number of cells on the screen.
pub const BUFFER_CELLS: usize = 2000;
/// The bottom row: once the writer reaches it, a line feed scrolls.
pub const LAST_ROW: usize = 24;

/// The sixteen fixed colours of VGA text mode.
#[allow(dead_code)]
#[derive(Debug, Clone, Copy, PartialEq, Eq, Structural)]
pub enum Color {
    Black,
    Blue,
    Green,
    Cyan,
    Red,
    Magenta,
    Brown,
    LightGray,
    DarkGray,
    LightBlue,
    LightGreen,
    LightCyan,
    LightRed,
    Pink,
    Yellow,
    White,
}

impl Color {
    /// The 4-bit hardware number of the colour.
    pub open spec fn number(self) -> u8 {
        match self {
            Color::Black => 0,
            Color::Blue => 1,
            Color::Green => 2,
            Color::Cyan => 3,
            Color::Red => 4,
            Color::Magenta => 5,
            Color::Brown => 6,
            Color::LightGray => 7,
            Color::DarkGray => 8,
            Color::LightBlue => 9,
            Color::LightGreen => 10,
            Color::LightCyan => 11,
            Color::LightRed => 12,
            Color::Pink => 13,
            Color::Yellow => 14,
            Color::White => 15,
        }
    }

    /// The 4-bit hardware number of the colour.
    pub fn value(self) -> (r: u8)
        ensures
            r == self.number(),
            r < 16,
    {
        match self {
            Color::Black => 0,
            Color::Blue => 1,
            Color::Green => 2,
            Color::Cyan => 3,
            Color::Red => 4,
            Color::Magenta => 5,
            Color::Brown => 6,
            Color::LightGray => 7,
            Color::DarkGray => 8,
            Color::LightBlue => 9,
            Color::LightGreen => 10,
            Color::LightCyan => 11,
            Color::LightRed => 12,
            Color::Pink => 13,
            Color::Yellow => 14,
            Color::White => 15,
        }
    }
}

/// A VGA colour byte: foreground in the low 4 bits, background in the high 4.
#[derive(Debug, Clone, Copy, PartialEq, Eq, Structural)]
pub struct ColorCode(pub u8);

impl ColorCode {
    /// The colour byte.
    pub open spec fn byte(self) -> u8 {
        self.0
    }

    /// Combines a foreground and a background colour into a colour byte.
    pub fn new(foreground: Color, background: Color) -> (r: ColorCode)
        ensures
            r.byte() == background.number() * 16 + foreground.number(),
    {
        let fg = foreground.value();
        let bg = background.value();
        assert((bg << 4u8) | fg == bg * 16 + fg) by (bit_vector)
            requires
                bg < 16,
                fg < 16,
        ;
        ColorCode((bg << 4u8) | fg)
    }

    /// The colour byte.
    pub fn value(&self) -> (r: u8)
        ensures
            r == self.byte(),
    {
        self.0
    }
}

/// One cell of the text grid: an 8-bit character and its colour.
#[derive(Debug, Clone, Copy, PartialEq, Eq, Structural)]
pub struct ScreenChar {
    pub ascii_character: u8,
    pub color_code: ColorCode,
}

/// A blank cell (a space) in the given colour.
pub open spec fn blank(color: ColorCode) -> ScreenChar {
    ScreenChar { ascii_character: 0x20, color_code: color }
}

/// Index in row-major order of the cell at `row`, `col`.
pub open spec fn cell_index(row: int, col: int) -> int {
    row * 80 + col
}

/// What the screen holds: its cells in row-major order, the row and column
/// where the next character goes, and the current colour.
pub ghost struct ScreenState {
    pub cells: Seq<ScreenChar>,
    pub row: nat,
    pub column: nat,
    pub color: ColorCode,
}

/// A screen state the writer can be in.
pub open spec fn valid_state(s: ScreenState) -> bool {
    s.cells.len() == 2000 && s.row < 25 && s.column <= 80
}

/// The cells after every row moved one up and the bottom row was blanked.
pub open spec fn scrolled(cells: Seq<ScreenChar>, color: ColorCode) -> Seq<ScreenChar> {
    Seq::new(2000, |i: int| if i < 1920 { cells[i + 80] } else { blank(color) })
}

/// The state after a line feed: the column goes back to 0 on the next row;
/// on the bottom row the screen scrolls one row instead.
pub open spec fn after_newline(s: ScreenState) -> ScreenState {
    if s.row < 24 {
        ScreenState { cells: s.cells, row: s.row + 1, column: 0, color: s.color }
    } else {
        ScreenState { cells: scrolled(s.cells, s.color), row: 24, column: 0, color: s.color }
    }
}

/// The state after one byte is written: a line feed starts a new line; any
/// other byte goes at the current row and column, after a line feed when
/// the row is full.
pub open spec fn after_byte(s: ScreenState, b: u8) -> ScreenState {
    if b == 0x0a {
        after_newline(s)
    } else {
        let t = if s.column >= 80 { after_newline(s) } else { s };
        ScreenState {
            cells: t.cells.update(
                cell_index(t.row as int, t.column as int),
                ScreenChar { ascii_character: b, color_code: s.color },
            ),
            row: t.row,
            column: t.column + 1,
            color: s.color,
        }
    }
}

/// The byte shown for a byte of text: printable ASCII and line feed as
/// they are, anything else as the "unknown character" square 0xfe.
pub open spec fn shown_byte(b: u8) -> u8 {
    if (0x20 <= b && b <= 0x7e) || b == 0x0a {
        b
    } else {
        0xfe
    }
}

/// The state after the bytes of a text are written one by one, each as
/// `shown_byte` maps it.
pub open spec fn after_text(s: ScreenState, bytes: Seq<u8>) -> ScreenState
    decreases bytes.len(),
{
    if bytes.len() == 0 {
        s
    } else {
        after_byte(after_text(s, bytes.drop_last()), shown_byte(bytes.last()))
    }
}

/// The state after the UTF-8 bytes of `chars` are written as text.
pub open spec fn after_chars(s: ScreenState, chars: Seq<char>) -> ScreenState {
    after_text(s, encode_utf8(chars))
}

/// Writing `a` then `b` is writing `a + b`.
pub proof fn lemma_after_text_concat(s: ScreenState, a: Seq<u8>, b: Seq<u8>)
    ensures
        after_text(s, a + b) == after_text(after_text(s, a), b),
    decreases b.len(),
{
    if b.len() == 0 {
        assert(a + b =~= a);
    } else {
        lemma_after_text_concat(s, a, b.drop_last());
        assert((a + b).drop_last() =~= a + b.drop_last());
        assert((a + b).last() == b.last());
    }
}

/// The UTF-8 encoding of `a + b` is the encoding of `a` followed by that of `b`.
pub proof fn lemma_encode_utf8_concat(a: Seq<char>, b: Seq<char>)
    ensures
        encode_utf8(a + b) == encode_utf8(a) + encode_utf8(b),
    decreases a.len(),
{
    if a.len() == 0 {
        assert(a + b =~= b);
        assert(encode_utf8(a) =~= Seq::<u8>::empty());
        assert(encode_utf8(a) + encode_utf8(b) =~= encode_utf8(b));
    } else {
        assert((a + b).drop_first() =~= a.drop_first() + b);
        assert((a + b)[0] == a[0]);
        lemma_encode_utf8_concat(a.drop_first(), b);
        let e0 = vstd::utf8::encode_scalar(a[0] as u32);
        assert(e0 + (encode_utf8(a.drop_first()) + encode_utf8(b)) =~= (e0 + encode_utf8(a.drop_first()))
            + encode_utf8(b));
    }
}

/// Writing the characters `a` then `b` is writing `a + b`.
pub proof fn lemma_after_chars_concat(s: ScreenState, a: Seq<char>, b: Seq<char>)
    ensures
        after_chars(s, a + b) == after_chars(after_chars(s, a), b),
{
    lemma_encode_utf8_concat(a, b);
    lemma_after_text_concat(s, encode_utf8(a), encode_utf8(b));
}

/// The state after the whole screen is blanked: writing goes on from the
/// start of the bottom row.
pub open spec fn after_clear(s: ScreenState) -> ScreenState {
    ScreenState { cells: Seq::new(2000, |i: int| blank(s.color)), row: 24, column: 0, color: s.color }
}

/// The state after the whole screen is blanked and writing moved to the
/// start of the top row.
pub open spec fn after_clear_to_top(s: ScreenState) -> ScreenState {
    ScreenState { cells: Seq::new(2000, |i: int| blank(s.color)), row: 0, column: 0, color: s.color }
}

/// The state after a backspace: without effect at column 0, else the
/// column goes back one and that cell of the current row is blanked.
pub open spec fn after_backspace(s: ScreenState) -> ScreenState {
    if s.column == 0 {
        s
    } else {
        ScreenState {
            cells: s.cells.update(cell_index(s.row as int, s.column - 1), blank(s.color)),
            row: s.row,
            column: (s.column - 1) as nat,
            color: s.color,
        }
    }
}

/// `needle` stands in row `row` from column `start` on.
pub open spec fn row_matches(cells: Seq<ScreenChar>, row: int, start: int, needle: Seq<u8>) -> bool {
    forall|i: int| 0 <= i < needle.len() ==> #[trigger] cells[cell_index(row, start + i)].ascii_character == needle[i]
}

/// Some row holds `needle` in consecutive cells; an empty needle or one
/// wider than a row is never found.
pub open spec fn screen_shows(cells: Seq<ScreenChar>, needle: Seq<u8>) -> bool {
    &&& 0 < needle.len() <= 80
    &&& exists|row: int, start: int|
        0 <= row < 25 && 0 <= start && start + needle.len() <= 80 && #[trigger] row_matches(cells, row, start, needle)
}

/// Every cell of the screen holds a space.
pub open spec fn screen_blank(cells: Seq<ScreenChar>) -> bool {
    forall|i: int| 0 <= i < 2000 ==> #[trigger] cells[i].ascii_character == 0x20
}

/// Writes text on the screen, keeping the row and column, the line feed
/// and the scrolling when text goes past the last row.
pub struct Writer {
    row_position: usize,
    column_position: usize,
    color_code: ColorCode,
    chars: [ScreenChar; 2000],
}

impl View for Writer {
    type V = ScreenState;

    closed spec fn view(&self) -> ScreenState {
        ScreenState {
            cells: self.chars@,
            row: self.row_position as nat,
            column: self.column_position as nat,
            color: self.color_code,
        }
    }
}

impl Writer {
    /// The writer's invariant: a full screen of cells, row and column within
    /// the screen.
    pub closed spec fn wf(&self) -> bool {
        self.chars@.len() == 2000 && self.row_position < 25 && self.column_position <= 80
    }

    pub proof fn lemma_wf(&self)
        requires
            self.wf(),
        ensures
            valid_state(self@),
    {
    }

    /// A writer on a blank screen in the given colour, at the start of the
    /// bottom row.
    pub fn new(color_code: ColorCode) -> (w: Writer)
        ensures
            w.wf(),
            w@ == after_clear(ScreenState { cells: Seq::empty(), row: 24, column: 0, color: color_code }),
    {
        let b = ScreenChar { ascii_character: 0x20u8, color_code };
        let chars = [b; 2000];
        let w = Writer { row_position: LAST_ROW, column_position: 0, color_code, chars };
        assert(w@.cells =~= Seq::new(2000, |i: int| blank(color_code)));
        w
    }

    /// A writer over a screen that already holds `chars` (row-major),
    /// writing in the given colour from the start of the bottom row.
    pub fn from_cells(color_code: ColorCode, chars: [ScreenChar; 2000]) -> (w: Writer)
        ensures
            w.wf(),
            w@ == (ScreenState { cells: chars@, row: 24, column: 0, color: color_code }),
    {
        Writer { row_position: LAST_ROW, column_position: 0, color_code, chars }
    }

    /// The cell at `row`, `col`.
    pub fn char_at(&self, row: usize, col: usize) -> (c: ScreenChar)
        requires
            self.wf(),
            row < 25,
            col < 80,
        ensures
            c == self@.cells[cell_index(row as int, col as int)],
    {
        self.chars[row * BUFFER_WIDTH + col]
    }

    /// The column where the next character goes.
    pub fn column(&self) -> (c: usize)
        ensures
            c == self@.column,
    {
        self.column_position
    }

    /// The row where the next character goes.
    pub fn row(&self) -> (r: usize)
        ensures
            r == self@.row,
    {
        self.row_position
    }

    /// Writes one byte: a line feed moves to a new line; any other byte goes
    /// at the current row and column.
    pub fn write_byte(&mut self, byte: u8)
        requires
            old(self).wf(),
        ensures
            final(self).wf(),
            final(self)@ == after_byte(old(self)@, byte),
    {
        if byte == 0x0au8 {
            self.new_line();
        } else {
            if self.column_position >= BUFFER_WIDTH {
                self.new_line();
            }
            let col = self.column_position;
            let color_code = self.color_code;
            self.chars[self.row_position * BUFFER_WIDTH + col] = ScreenChar { ascii_character: byte, color_code };
            self.column_position = self.column_position + 1;
        }
    }

    /// Writes the bytes of `bytes` one by one; printable ASCII and line
    /// feed as they are, any other byte as the square 0xfe.
    pub fn write_bytes(&mut self, bytes: &[u8])
        requires
            old(self).wf(),
        ensures
            final(self).wf(),
            final(self)@ == after_text(old(self)@, bytes@),
    {
        let mut i: usize = 0;
        while i < bytes.len()
            invariant
                i <= bytes@.len(),
                self.wf(),
                self@ == after_text(old(self)@, bytes@.subrange(0, i as int)),
            decreases bytes@.len() - i,
        {
            let byte = bytes[i];
            let shown = if (0x20 <= byte && byte <= 0x7e) || byte == 0x0au8 {
                byte
            } else {
                0xfe
            };
            self.write_byte(shown);
            proof {
                let next = bytes@.subrange(0, i + 1);
                assert(next.drop_last() =~= bytes@.subrange(0, i as int));
            }
            i = i + 1;
        }
        proof {
            assert(bytes@.subrange(0, bytes@.len() as int) =~= bytes@);
        }
    }

    /// Writes a string: its UTF-8 bytes, each as `write_bytes` shows it.
    pub fn write_string(&mut self, s: &str)
        requires
            old(self).wf(),
        ensures
            final(self).wf(),
            final(self)@ == after_chars(old(self)@, s@),
    {
        self.write_bytes(s.as_bytes());
    }

    /// Starts a new line: the next row, or on the bottom row every row moves
    /// one up and the bottom row is blanked; the column goes back to 0.
    fn new_line(&mut self)
        requires
            old(self).wf(),
        ensures
            final(self).wf(),
            final(self)@ == after_newline(old(self)@),
    {
        if self.row_position < LAST_ROW {
            self.row_position = self.row_position + 1;
            self.column_position = 0;
            return;
        }
        let ghost old_cells = self.chars@;
        let mut row: usize = 1;
        while row < BUFFER_HEIGHT
            invariant
                1 <= row <= 25,
                self.chars@.len() == 2000,
                self.row_position == old(self).row_position,
                self.column_position == old(self).column_position,
                self.color_code == old(self).color_code,
                old_cells == old(self).chars@,
                forall|i: int| 0 <= i < (row - 1) * 80 ==> #[trigger] self.chars@[i] == old_cells[i + 80],
                forall|i: int| (row - 1) * 80 <= i < 2000 ==> #[trigger] self.chars@[i] == old_cells[i],
            decreases 25 - row,
        {
            let mut col: usize = 0;
            while col < BUFFER_WIDTH
                invariant
                    1 <= row < 25,
                    col <= 80,
                    self.chars@.len() == 2000,
                    self.row_position == old(self).row_position,
                    self.column_position == old(self).column_position,
                    self.color_code == old(self).color_code,
                    forall|i: int| 0 <= i < (row - 1) * 80 + col ==> #[trigger] self.chars@[i] == old_cells[i + 80],
                    forall|i: int| (row - 1) * 80 + col <= i < 2000 ==> #[trigger] self.chars@[i] == old_cells[i],
                decreases 80 - col,
            {
                let character = self.chars[row * BUFFER_WIDTH + col];
                self.chars[(row - 1) * BUFFER_WIDTH + col] = character;
                col = col + 1;
            }
            row = row + 1;
        }
        self.clear_row(BUFFER_HEIGHT - 1);
        self.column_position = 0;
        assert(self.chars@ =~= scrolled(old_cells, self.color_code));
    }

    /// Blanks every cell of row `row` in the current colour.
    fn clear_row(&mut self, row: usize)
        requires
            old(self).wf(),
            row < 25,
        ensures
            final(self).wf(),
            final(self).row_position == old(self).row_position,
            final(self).column_position == old(self).column_position,
            final(self).color_code == old(self).color_code,
            forall|i: int|
                0 <= i < 2000 ==> #[trigger] final(self).chars@[i] == if row * 80 <= i < row * 80 + 80 {
                    blank(old(self).color_code)
                } else {
                    old(self).chars@[i]
                },
    {
        let blank_char = ScreenChar { ascii_character: 0x20u8, color_code: self.color_code };
        let mut col: usize = 0;
        while col < BUFFER_WIDTH
            invariant
                row < 25,
                col <= 80,
                self.wf(),
                self.row_position == old(self).row_position,
                self.column_position == old(self).column_position,
                self.color_code == old(self).color_code,
                blank_char == blank(self.color_code),
                forall|i: int|
                    0 <= i < 2000 ==> #[trigger] self.chars@[i] == if row * 80 <= i < row * 80 + col {
                        blank(old(self).color_code)
                    } else {
                        old(self).chars@[i]
                    },
            decreases 80 - col,
        {
            self.chars[row * BUFFER_WIDTH + col] = blank_char;
            col = col + 1;
        }
    }

    /// Blanks the whole screen; writing goes on from the start of the bottom
    /// row.
    pub fn clear_screen(&mut self)
        requires
            old(self).wf(),
        ensures
            final(self).wf(),
            final(self)@ == after_clear(old(self)@),
    {
        self.blank_all();
        self.row_position = LAST_ROW;
        self.column_position = 0;
        assert(self.chars@ =~= Seq::new(2000, |i: int| blank(old(self).color_code)));
    }

    /// Blanks the whole screen and moves writing to the start of the top row.
    pub fn clear_screen_to_top(&mut self)
        requires
            old(self).wf(),
        ensures
            final(self).wf(),
            final(self)@ == after_clear_to_top(old(self)@),
    {
        self.blank_all();
        self.row_position = 0;
        self.column_position = 0;
        assert(self.chars@ =~= Seq::new(2000, |i: int| blank(old(self).color_code)));
    }

    /// Blanks every cell in the current colour.
    fn blank_all(&mut self)
        requires
            old(self).wf(),
        ensures
            final(self).wf(),
            final(self).color_code == old(self).color_code,
            forall|i: int| 0 <= i < 2000 ==> #[trigger] final(self).chars@[i] == blank(old(self).color_code),
    {
        let mut row: usize = 0;
        while row < BUFFER_HEIGHT
            invariant
                row <= 25,
                self.wf(),
                self.color_code == old(self).color_code,
                forall|i: int|
                    0 <= i < 2000 ==> #[trigger] self.chars@[i] == if i < row * 80 {
                        blank(old(self).color_code)
                    } else {
                        old(self).chars@[i]
                    },
            decreases 25 - row,
        {
            self.clear_row(row);
            row = row + 1;
        }
    }

    /// Removes the last character written on the current row: the column
    /// goes back one and that cell is blanked. Without effect at column 0.
    pub fn backspace(&mut self)
        requires
            old(self).wf(),
        ensures
            final(self).wf(),
            final(self)@ == after_backspace(old(self)@),
    {
        if self.column_position == 0 {
            return;
        }
        self.column_position = self.column_position - 1;
        let col = self.column_position;
        let blank_char = ScreenChar { ascii_character: 0x20u8, color_code: self.color_code };
        self.chars[self.row_position * BUFFER_WIDTH + col] = blank_char;
    }

    /// The hardware cursor position, split in the high and low bytes that
    /// the CRTC location registers take: the current row and column.
    pub fn cursor_location(&self) -> (r: (u8, u8))
        requires
            self.wf(),
        ensures
            r.0 as int * 256 + r.1 as int == cell_index(self@.row as int, self@.column as int),
    {
        let position: usize = self.row_position * BUFFER_WIDTH + self.column_position;
        let high = ((position >> 8usize) & 0xffusize) as u8;
        let low = (position & 0xffusize) as u8;
        assert(((position >> 8usize) & 0xffusize) * 256 + (position & 0xffusize) == position) by (bit_vector)
            requires
                position < 0x10000usize,
        ;
        assert(((position >> 8usize) & 0xffusize) < 256usize) by (bit_vector);
        assert((position & 0xffusize) < 256usize) by (bit_vector);
        (high, low)
    }

    /// `needle` stands in row `row` from column `start` on.
    fn matches_at(&self, row: usize, start: usize, needle: &[u8]) -> (r: bool)
        requires
            self.wf(),
            row < 25,
            start + needle@.len() <= 80,
        ensures
            r == row_matches(self@.cells, row as int, start as int, needle@),
    {
        let mut i: usize = 0;
        while i < needle.len()
            invariant
                self.wf(),
                row < 25,
                start + needle@.len() <= 80,
                i <= needle@.len(),
                forall|k: int| 0 <= k < i ==> #[trigger] self.chars@[cell_index(row as int, start + k)].ascii_character == needle@[k],
            decreases needle@.len() - i,
        {
            if self.chars[row * BUFFER_WIDTH + start + i].ascii_character != needle[i] {
                assert(self.chars@[cell_index(row as int, start + i)].ascii_character != needle@[i as int]);
                return false;
            }
            i = i + 1;
        }
        true
    }
}

/// Blanks the screen of `writer` and moves its column back to the start.
pub fn clear_screen(writer: &mut Writer)
    requires
        old(writer).wf(),
    ensures
        final(writer).wf(),
        final(writer)@ == after_clear(old(writer)@),
{
    writer.clear_screen();
}

/// Erases the last character written by `writer` (the Backspace key).
pub fn backspace(writer: &mut Writer)
    requires
        old(writer).wf(),
    ensures
        final(writer).wf(),
        final(writer)@ == after_backspace(old(writer)@),
{
    writer.backspace();
}

/// True when the bytes of `needle` stand in consecutive cells of some row
/// of the screen; false for an empty needle or one wider than a row.
pub fn screen_contains(writer: &Writer, needle: &str) -> (r: bool)
    requires
        writer.wf(),
    ensures
        r == screen_shows(writer@.cells, needle.spec_bytes()),
{
    let bytes = needle.as_bytes();
    if bytes.len() == 0 || bytes.len() > BUFFER_WIDTH {
        return false;
    }
    let mut row: usize = 0;
    while row < BUFFER_HEIGHT
        invariant
            writer.wf(),
            bytes@ == needle.spec_bytes(),
            0 < bytes@.len() <= 80,
            row <= 25,
            forall|r: int, s: int|
                0 <= r < row && 0 <= s && s + bytes@.len() <= 80 ==> !#[trigger] row_matches(writer@.cells, r, s, bytes@),
        decreases 25 - row,
    {
        let mut start: usize = 0;
        while start <= BUFFER_WIDTH - bytes.len()
            invariant
                writer.wf(),
                bytes@ == needle.spec_bytes(),
                0 < bytes@.len() <= 80,
                row < 25,
                start <= 81 - bytes@.len(),
                forall|r: int, s: int|
                    0 <= r < row && 0 <= s && s + bytes@.len() <= 80 ==> !#[trigger] row_matches(writer@.cells, r, s, bytes@),
                forall|s: int| 0 <= s < start ==> !#[trigger] row_matches(writer@.cells, row as int, s, bytes@),
            decreases 81 - bytes@.len() - start,
        {
            if writer.matches_at(row, start, bytes) {
                assert(row_matches(writer@.cells, row as int, start as int, bytes@));
                return true;
            }
            start = start + 1;
        }
        row = row + 1;
    }
    false
}

/// True when every cell of the screen holds a space.
pub fn screen_is_blank(writer: &Writer) -> (r: bool)
    requires
        writer.wf(),
    ensures
        r == screen_blank(writer@.cells),
{
    let mut row: usize = 0;
    while row < BUFFER_HEIGHT
        invariant
            writer.wf(),
            row <= 25,
            forall|i: int| 0 <= i < row * 80 ==> #[trigger] writer@.cells[i].ascii_character == 0x20,
        decreases 25 - row,
    {
        let mut col: usize = 0;
        while col < BUFFER_WIDTH
            invariant
                writer.wf(),
                row < 25,
                col <= 80,
                forall|i: int| 0 <= i < row * 80 + col ==> #[trigger] writer@.cells[i].ascii_character == 0x20,
            decreases 80 - col,
        {
            if writer.char_at(row, col).ascii_character != 0x20u8 {
                return false;
            }
            col = col + 1;
        }
        row = row + 1;
    }
    true
}


/// Clearing the screen leaves every cell blank and the column at 0; the
/// plain clear writes on from the bottom row, the clear to the top from the
/// top row.
pub proof fn lemma_clear_leaves_blank(s: ScreenState)
    ensures
        screen_blank(after_clear(s).cells),
        after_clear(s).column == 0,
        after_clear(s).row == 24,
        valid_state(after_clear(s)),
        screen_blank(after_clear_to_top(s).cells),
        after_clear_to_top(s).column == 0,
        after_clear_to_top(s).row == 0,
        valid_state(after_clear_to_top(s)),
{
}

/// Backspace right after a character written on the same line erases it:
/// the column is back where it was and that cell is blank again; when the
/// cell was blank before, the screen is exactly as before the write.
pub proof fn lemma_backspace_undoes_write(s: ScreenState, b: u8)
    requires
        valid_state(s),
        s.column < 80,
        b != 0x0a,
    ensures
        after_backspace(after_byte(s, b)) == (ScreenState {
            cells: s.cells.update(cell_index(s.row as int, s.column as int), blank(s.color)),
            row: s.row,
            column: s.column,
            color: s.color,
        }),
        s.cells[cell_index(s.row as int, s.column as int)] == blank(s.color) ==> after_backspace(
            after_byte(s, b),
        ) == s,
{
    let col = cell_index(s.row as int, s.column as int);
    let t = after_byte(s, b);
    assert(t.cells =~= s.cells.update(col, ScreenChar { ascii_character: b, color_code: s.color }));
    assert(after_backspace(t).cells =~= s.cells.update(col, blank(s.color)));
    if s.cells[col] == blank(s.color) {
        assert(s.cells.update(col, blank(s.color)) =~= s.cells);
    }
}

/// Printable text of at most a row, written from column 0, stands at the
/// start of the current row, which does not change, and the column is its
/// length.
pub proof fn lemma_printable_written_from_line_start(s: ScreenState, t: Seq<u8>)
    requires
        valid_state(s),
        s.column == 0,
        t.len() <= 80,
        forall|i: int| 0 <= i < t.len() ==> 0x20 <= #[trigger] t[i] <= 0x7e,
    ensures
        valid_state(after_text(s, t)),
        after_text(s, t).row == s.row,
        after_text(s, t).column == t.len(),
        after_text(s, t).color == s.color,
        forall|i: int|
            0 <= i < t.len() ==> #[trigger] after_text(s, t).cells[cell_index(s.row as int, i)].ascii_character
                == t[i],
        forall|k: int|
            0 <= k < 2000 && !(cell_index(s.row as int, 0) <= k < cell_index(s.row as int, t.len() as int))
                ==> #[trigger] after_text(s, t).cells[k] == s.cells[k],
    decreases t.len(),
{
    if t.len() > 0 {
        let p = t.drop_last();
        assert forall|i: int| 0 <= i < p.len() implies 0x20 <= #[trigger] p[i] <= 0x7e by {
            assert(p[i] == t[i]);
        }
        lemma_printable_written_from_line_start(s, p);
        let before = after_text(s, p);
        assert(shown_byte(t.last()) == t.last());
        let after = after_text(s, t);
        assert(after == after_byte(before, t.last()));
        assert forall|i: int| 0 <= i < t.len() implies #[trigger] after.cells[cell_index(s.row as int, i)].ascii_character
            == t[i] by {
            if i < p.len() {
                assert(after.cells[cell_index(s.row as int, i)] == before.cells[cell_index(s.row as int, i)]);
            }
        }
    }
}

/// Printable text of at most one row, written from the start of a line,
/// can be found on the screen; so can it after the line feed that ends
/// the line (one row higher when the line feed scrolls).
pub proof fn lemma_written_text_is_found(s: ScreenState, t: Seq<u8>)
    requires
        valid_state(s),
        s.column == 0,
        0 < t.len() <= 80,
        forall|i: int| 0 <= i < t.len() ==> 0x20 <= #[trigger] t[i] <= 0x7e,
    ensures
        screen_shows(after_text(s, t).cells, t),
        screen_shows(after_byte(after_text(s, t), 0x0a).cells, t),
{
    lemma_printable_written_from_line_start(s, t);
    let w = after_text(s, t);
    let r = s.row as int;
    assert(row_matches(w.cells, r, 0, t)) by {
        assert forall|i: int| 0 <= i < t.len() implies #[trigger] w.cells[cell_index(r, 0 + i)].ascii_character
            == t[i] by {
            assert(cell_index(r, 0 + i) == cell_index(r, i));
        }
    }
    let n = after_byte(w, 0x0a);
    if r < 24 {
        assert(row_matches(n.cells, r, 0, t));
    } else {
        assert(row_matches(n.cells, 23, 0, t)) by {
            assert forall|i: int| 0 <= i < t.len() implies #[trigger] n.cells[cell_index(23, 0 + i)].ascii_character
                == t[i] by {
                assert(cell_index(23, 0 + i) == 1840 + i);
                assert(n.cells[1840 + i] == w.cells[1920 + i]);
                assert(cell_index(r, i) == 1920 + i);
            }
        }
    }
}

/// A line feed never overwrites: above the bottom row it moves to the next
/// row and leaves every cell; on the bottom row it scrolls, every row but
/// the top one moving one row up unchanged and the bottom row becoming
/// blank.
pub proof fn lemma_newline_scrolls(s: ScreenState, row: int, col: int)
    requires
        valid_state(s),
        0 <= row < 25,
        0 <= col < 80,
    ensures
        s.row < 24 ==> after_newline(s).cells == s.cells && after_newline(s).row == s.row + 1,
        s.row == 24 && row < 24 ==> after_newline(s).cells[cell_index(row, col)] == s.cells[cell_index(
            row + 1,
            col,
        )],
        s.row == 24 && row == 24 ==> after_newline(s).cells[cell_index(row, col)] == blank(s.color),
        s.row == 24 ==> after_newline(s).row == 24,
        after_newline(s).column == 0,
{
}

/// A byte written at a full row (column 80) never overwrites that row: it
/// goes to column 0 of the next row, and the full row keeps all its 80
/// cells; on the bottom row the screen first scrolls one row, so the full
/// row's cells are found unchanged one row higher. Line feeds aside, this
/// holds for every byte and every row.
pub proof fn lemma_full_row_wraps(s: ScreenState, b: u8, col: int)
    requires
        valid_state(s),
        s.column == 80,
        b != 0x0a,
        0 <= col < 80,
    ensures
        after_byte(s, b).column == 1,
        after_byte(s, b).color == s.color,
        s.row < 24 ==> after_byte(s, b).row == s.row + 1,
        s.row < 24 ==> after_byte(s, b).cells[cell_index(s.row + 1int, 0)].ascii_character == b,
        s.row < 24 ==> after_byte(s, b).cells[cell_index(s.row as int, col)] == s.cells[cell_index(
            s.row as int,
            col,
        )],
        s.row == 24 ==> after_byte(s, b).row == 24,
        s.row == 24 ==> after_byte(s, b).cells[cell_index(24, 0)].ascii_character == b,
        s.row == 24 ==> after_byte(s, b).cells[cell_index(23, col)] == s.cells[cell_index(24, col)],
{
}

/// A line feed starts the next row at column 0 without touching any cell;
/// on the bottom row it scrolls instead, so the writer stays on the bottom
/// row, now blank, and every other row holds what the row below it held.
pub proof fn lemma_line_feed_moves_down(s: ScreenState, row: int, col: int)
    requires
        valid_state(s),
        0 <= row < 25,
        0 <= col < 80,
    ensures
        after_byte(s, 0x0a).column == 0,
        after_byte(s, 0x0a).color == s.color,
        valid_state(after_byte(s, 0x0a)),
        s.row < 24 ==> after_byte(s, 0x0a).row == s.row + 1,
        s.row < 24 ==> after_byte(s, 0x0a).cells == s.cells,
        s.row == 24 ==> after_byte(s, 0x0a).row == 24,
        s.row == 24 && row < 24 ==> after_byte(s, 0x0a).cells[cell_index(row, col)] == s.cells[cell_index(
            row + 1,
            col,
        )],
        s.row == 24 ==> after_byte(s, 0x0a).cells[cell_index(24, col)].ascii_character == 0x20,
{
}

/// A byte other than a line feed, written before the row is full, lands at
/// the current row and column in the current colour, moves the column one
/// to the right on the same row and changes no other cell.
pub proof fn lemma_byte_written_in_place(s: ScreenState, b: u8, k: int)
    requires
        valid_state(s),
        s.column < 80,
        b != 0x0a,
        0 <= k < 2000,
        k != cell_index(s.row as int, s.column as int),
    ensures
        after_byte(s, b).row == s.row,
        after_byte(s, b).column == s.column + 1,
        after_byte(s, b).cells[cell_index(s.row as int, s.column as int)] == (ScreenChar {
            ascii_character: b,
            color_code: s.color,
        }),
        after_byte(s, b).cells[k] == s.cells[k],
{
}

} // verus!
