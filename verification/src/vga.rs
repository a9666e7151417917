//! The text-mode display model: colors, attribute bytes, screen characters,
//! and a writer over a 25-by-80 cell grid with ANSI escape support.
//!
//! The grid here is an owned model of the text buffer; the surrounding
//! program copies it to the memory-mapped hardware buffer and moves the
//! hardware cursor.  Everything that decides *what* lands in which cell —
//! line wrapping, scrolling, escape parsing, attribute arithmetic — is
//! verified logic.

use vstd::prelude::*;

verus! {

/// The height of the text buffer in rows.
pub const BUFFER_HEIGHT: usize = 25;

/// The width of the text buffer in columns.
pub const BUFFER_WIDTH: usize = 80;

/// The standard color palette in VGA text mode.
#[derive(Clone, Copy, Debug, PartialEq, Eq, Structural)]
pub enum Color {
    Black,
    Blue,
    Green,
    Cyan,
    Red,
    Magenta,
    Brown,
    LightGray,
    DarkGray,
    LightBlue,
    LightGreen,
    LightCyan,
    LightRed,
    Pink,
    Yellow,
    White,
}

impl Color {
    /// The palette index of this color, 0 through 15.
    pub open spec fn spec_code(self) -> u8 {
        match self {
            Color::Black => 0,
            Color::Blue => 1,
            Color::Green => 2,
            Color::Cyan => 3,
            Color::Red => 4,
            Color::Magenta => 5,
            Color::Brown => 6,
            Color::LightGray => 7,
            Color::DarkGray => 8,
            Color::LightBlue => 9,
            Color::LightGreen => 10,
            Color::LightCyan => 11,
            Color::LightRed => 12,
            Color::Pink => 13,
            Color::Yellow => 14,
            Color::White => 15,
        }
    }

    /// The palette index of this color, 0 through 15.
    #[verifier::when_used_as_spec(spec_code)]
    pub fn code(self) -> (n: u8)
        ensures
            n == self.spec_code(),
            n < 16,
    {
        match self {
            Color::Black => 0,
            Color::Blue => 1,
            Color::Green => 2,
            Color::Cyan => 3,
            Color::Red => 4,
            Color::Magenta => 5,
            Color::Brown => 6,
            Color::LightGray => 7,
            Color::DarkGray => 8,
            Color::LightBlue => 9,
            Color::LightGreen => 10,
            Color::LightCyan => 11,
            Color::LightRed => 12,
            Color::Pink => 13,
            Color::Yellow => 14,
            Color::White => 15,
        }
    }

    /// The color of a palette index; anything past the palette is black.
    pub open spec fn spec_from_code(n: u8) -> Color {
        match n {
            0 => Color::Black,
            1 => Color::Blue,
            2 => Color::Green,
            3 => Color::Cyan,
            4 => Color::Red,
            5 => Color::Magenta,
            6 => Color::Brown,
            7 => Color::LightGray,
            8 => Color::DarkGray,
            9 => Color::LightBlue,
            10 => Color::LightGreen,
            11 => Color::LightCyan,
            12 => Color::LightRed,
            13 => Color::Pink,
            14 => Color::Yellow,
            15 => Color::White,
            _ => Color::Black,
        }
    }

    /// The color of a palette index; anything past the palette is black.
    #[verifier::when_used_as_spec(spec_from_code)]
    pub fn from_code(n: u8) -> (c: Color)
        ensures
            c == Color::spec_from_code(n),
    {
        match n {
            0 => Color::Black,
            1 => Color::Blue,
            2 => Color::Green,
            3 => Color::Cyan,
            4 => Color::Red,
            5 => Color::Magenta,
            6 => Color::Brown,
            7 => Color::LightGray,
            8 => Color::DarkGray,
            9 => Color::LightBlue,
            10 => Color::LightGreen,
            11 => Color::LightCyan,
            12 => Color::LightRed,
            13 => Color::Pink,
            14 => Color::Yellow,
            15 => Color::White,
            _ => Color::Black,
        }
    }

    /// The color of an ANSI SGR color digit, 0 through 7; anything else is
    /// black.  The ANSI order differs from the palette order.
    pub open spec fn spec_from_ansi(n: u8) -> Color {
        match n {
            0 => Color::Black,
            1 => Color::Red,
            2 => Color::Green,
            3 => Color::Yellow,
            4 => Color::Blue,
            5 => Color::Magenta,
            6 => Color::Cyan,
            7 => Color::White,
            _ => Color::Black,
        }
    }

    /// The color of an ANSI SGR color digit, 0 through 7; anything else is
    /// black.
    #[verifier::when_used_as_spec(spec_from_ansi)]
    pub fn from_ansi(n: u8) -> (c: Color)
        ensures
            c == Color::spec_from_ansi(n),
    {
        match n {
            0 => Color::Black,
            1 => Color::Red,
            2 => Color::Green,
            3 => Color::Yellow,
            4 => Color::Blue,
            5 => Color::Magenta,
            6 => Color::Cyan,
            7 => Color::White,
            _ => Color::Black,
        }
    }
}

/// A VGA text mode attribute byte: background color in the high nibble,
/// foreground in the low one.
#[derive(Clone, Copy, Debug, PartialEq, Eq, Structural)]
pub struct ScreenAttribute(pub u8);

impl ScreenAttribute {
    /// The attribute byte for a foreground on a background.
    pub open spec fn spec_new(foreground: Color, background: Color) -> ScreenAttribute {
        ScreenAttribute(background.spec_code() << 4 | foreground.spec_code())
    }

    /// The attribute byte for a foreground on a background.
    pub fn new(foreground: Color, background: Color) -> (a: ScreenAttribute)
        ensures
            a == ScreenAttribute::spec_new(foreground, background),
    {
        ScreenAttribute(background.code() << 4 | foreground.code())
    }

    /// The background color, read back from the high nibble.
    pub fn background(self) -> (c: Color)
        ensures
            c == Color::spec_from_code(self.0 >> 4),
    {
        match self {
            ScreenAttribute(n) => Color::from_code(n >> 4),
        }
    }

    /// The foreground color: the palette color of the whole byte, as the
    /// text buffer has always read it.  With a black background the high
    /// nibble is zero and this is exactly the low nibble's color; any other
    /// background pushes the byte past the palette, which reads as black.
    pub fn foreground(self) -> (c: Color)
        ensures
            c == Color::spec_from_code(self.0),
    {
        match self {
            ScreenAttribute(n) => Color::from_code(n),
        }
    }
}

impl Default for ScreenAttribute {
    /// Light gray on black.
    fn default() -> (a: ScreenAttribute)
        ensures
            a == ScreenAttribute::spec_new(Color::LightGray, Color::Black),
    {
        ScreenAttribute::new(Color::LightGray, Color::Black)
    }
}

/// One cell of the text buffer: a code page 437 glyph and its attribute.
#[derive(Clone, Copy, Debug, PartialEq, Eq, Structural)]
pub struct ScreenChar {
    /// The glyph code.
    pub code: u8,
    /// The cell's attribute byte.
    pub attr: ScreenAttribute,
}

impl ScreenChar {
    /// A cell with the given glyph and attribute.
    pub fn new(code: u8, attr: ScreenAttribute) -> (c: ScreenChar)
        ensures
            c == (ScreenChar { code, attr }),
    {
        ScreenChar { code, attr }
    }
}

/// The states of the ANSI escape sequence scanner.
#[derive(Clone, Copy, Debug, PartialEq, Eq, Structural)]
pub enum Ansi {
    /// Reading regular characters.
    Start,
    /// Just behind an escape byte.
    Esc,
    /// Inside a control sequence introducer.
    Csi,
}

/// The glyph a raw byte lands as: printable ASCII stays itself, anything
/// else shows as the 0xfe block.
pub open spec fn glyph(b: u8) -> u8 {
    if 0x20 <= b <= 0x7e {
        b
    } else {
        0xfe
    }
}

/// A blank cell in the given attribute.
pub open spec fn blank_char(attr: ScreenAttribute) -> ScreenChar {
    ScreenChar { code: 32, attr }
}

/// The cell written for a malformed ANSI sequence: a bright marker glyph.
pub open spec fn ansi_error_char() -> ScreenChar {
    ScreenChar { code: 13, attr: ScreenAttribute::spec_new(Color::White, Color::Black) }
}

/// The mathematical state of a writer: the cursor, the attribute in force,
/// and the cell grid, stored row-major as one sequence of
/// `BUFFER_HEIGHT * BUFFER_WIDTH` cells.
#[verifier::ext_equal]
pub struct WriterView {
    /// The cursor row, 0 through 24.
    pub row: int,
    /// The cursor column, 0 through 80; 80 means the row is full and the
    /// next cell written wraps.
    pub column: int,
    /// The attribute new cells are written with.
    pub attr: ScreenAttribute,
    /// The cell grid, row-major.
    pub cells: Seq<ScreenChar>,
}

impl WriterView {
    /// The grid has its full size and the cursor is on it.
    pub open spec fn wf(self) -> bool {
        &&& self.cells.len() == 25 * 80
        &&& 0 <= self.row < 25
        &&& 0 <= self.column <= 80
    }

    /// The cell at a row and column.
    pub open spec fn char_at(self, row: int, column: int) -> ScreenChar {
        self.cells[row * 80 + column]
    }
}

/// The grid after clearing one row to blanks in the writer's attribute.
pub open spec fn ws_clear_row(v: WriterView, row: int) -> WriterView {
    WriterView {
        cells: Seq::new(
            v.cells.len(),
            |i: int|
                if row * 80 <= i < (row + 1) * 80 {
                    blank_char(v.attr)
                } else {
                    v.cells[i]
                },
        ),
        ..v
    }
}

/// A line break: on the last row the grid scrolls one row up and the freed
/// row is cleared, otherwise the cursor just moves down; either way it
/// returns to the left edge.
pub open spec fn ws_new_line(v: WriterView) -> WriterView {
    if v.row < 24 {
        WriterView { row: v.row + 1, column: 0, ..v }
    } else {
        let scrolled = WriterView {
            column: 0,
            cells: Seq::new(
                v.cells.len(),
                |i: int|
                    if i < 24 * 80 {
                        v.cells[i + 80]
                    } else {
                        v.cells[i]
                    },
            ),
            ..v
        };
        ws_clear_row(scrolled, 24)
    }
}

/// One cell written at the cursor, wrapping to a new line first if the row
/// is full; the cursor moves one cell right.
pub open spec fn ws_write_screen(v: WriterView, ch: ScreenChar) -> WriterView {
    let w = if v.column >= 80 {
        ws_new_line(v)
    } else {
        v
    };
    WriterView { cells: w.cells.update(w.row * 80 + w.column, ch), column: w.column + 1, ..w }
}

/// One byte written: a line feed breaks the line, anything else lands as
/// its glyph in the current attribute.
pub open spec fn ws_write_byte(v: WriterView, b: u8) -> WriterView {
    if b == 10 {
        ws_new_line(v)
    } else {
        ws_write_screen(v, ScreenChar { code: glyph(b), attr: v.attr })
    }
}

/// The writer over the modeled text buffer.  The surrounding program copies
/// the grid to the memory-mapped buffer after a batch of writes and moves
/// the hardware cursor to the writer's row and column.
pub struct Writer {
    row: usize,
    column: usize,
    attr: ScreenAttribute,
    cells: Vec<ScreenChar>,
}

impl View for Writer {
    type V = WriterView;

    closed spec fn view(&self) -> WriterView {
        WriterView {
            row: self.row as int,
            column: self.column as int,
            attr: self.attr,
            cells: self.cells@,
        }
    }
}

impl Writer {
    /// A writer on a grid of blanks: cursor at the left edge of the bottom
    /// row, default attribute.
    pub fn new() -> (w: Writer)
        ensures
            w@.wf(),
            w@.row == 24,
            w@.column == 0,
            w@.attr == ScreenAttribute::spec_new(Color::LightGray, Color::Black),
            forall|i: int| 0 <= i < 25 * 80 ==> w@.cells[i] == blank_char(w@.attr),
    {
        let attr = ScreenAttribute::new(Color::LightGray, Color::Black);
        let mut cells: Vec<ScreenChar> = Vec::new();
        let mut i: usize = 0;
        while i < 25 * 80
            invariant
                i <= 25 * 80,
                cells@.len() == i,
                forall|k: int| 0 <= k < i ==> cells@[k] == blank_char(attr),
            decreases 25 * 80 - i,
        {
            cells.push(ScreenChar { code: 32, attr });
            i = i + 1;
        }
        Writer { row: 24, column: 0, attr, cells }
    }

    /// The cursor row, 0 through 24.
    pub fn row(&self) -> (r: usize)
        ensures
            r == self@.row,
    {
        self.row
    }

    /// The cursor column, 0 through 80.
    pub fn column(&self) -> (c: usize)
        ensures
            c == self@.column,
    {
        self.column
    }

    /// The attribute new cells are written with.
    pub fn attribute(&self) -> (a: ScreenAttribute)
        ensures
            a == self@.attr,
    {
        self.attr
    }

    /// The cell at a row and column.
    pub fn char_at(&self, row: usize, column: usize) -> (c: ScreenChar)
        requires
            self@.wf(),
            row < 25,
            column < 80,
        ensures
            c == self@.char_at(row as int, column as int),
    {
        self.cells[row * 80 + column]
    }

    /// Sets the attribute used for what is written from here on.
    pub fn set_attribute(&mut self, attr: ScreenAttribute)
        ensures
            final(self)@ == (WriterView { attr, ..old(self)@ }),
    {
        self.attr = attr;
        proof {
            assert(self@ =~= (WriterView { attr, ..old(self)@ }));
        }
    }

    /// Moves the cursor to a one-based row and column.
    pub fn set_cursor_position(&mut self, r: u8, c: u8)
        requires
            1 <= r <= 25,
            1 <= c <= 80,
        ensures
            final(self)@ == (WriterView {
                row: r - 1,
                column: c - 1,
                ..old(self)@
            }),
    {
        self.row = (r - 1) as usize;
        self.column = (c - 1) as usize;
        proof {
            assert(self@ =~= (WriterView { row: r - 1, column: c - 1, ..old(self)@ }));
        }
    }

    /// Clears one row to blanks in the current attribute.
    fn clear_row(&mut self, row: usize)
        requires
            old(self)@.wf(),
            row < 25,
        ensures
            final(self)@ == ws_clear_row(old(self)@, row as int),
            final(self)@.wf(),
    {
        let blank = ScreenChar { code: 32, attr: self.attr };
        let mut col: usize = 0;
        while col < 80
            invariant
                col <= 80,
                row < 25,
                self@.row == old(self)@.row,
                self@.column == old(self)@.column,
                self@.attr == old(self)@.attr,
                blank == blank_char(old(self)@.attr),
                self@.cells.len() == 25 * 80,
                forall|k: int|
                    row * 80 <= k < row * 80 + col ==> self@.cells[k] == blank_char(
                        old(self)@.attr,
                    ),
                forall|k: int|
                    0 <= k < 25 * 80 && !(row * 80 <= k < row * 80 + col) ==> self@.cells[k]
                        == old(self)@.cells[k],
            decreases 80 - col,
        {
            self.cells[row * 80 + col] = blank;
            col = col + 1;
        }
        proof {
            assert(self@ =~= ws_clear_row(old(self)@, row as int));
        }
    }

    /// Breaks the line: scrolls on the bottom row, moves down otherwise.
    fn new_line(&mut self)
        requires
            old(self)@.wf(),
        ensures
            final(self)@ == ws_new_line(old(self)@),
            final(self)@.wf(),
    {
        if self.row < 24 {
            self.row = self.row + 1;
            self.column = 0;
            proof {
                assert(self@ =~= ws_new_line(old(self)@));
            }
        } else {
            let mut i: usize = 0;
            while i < 24 * 80
                invariant
                    i <= 24 * 80,
                    self@.row == old(self)@.row,
                    self@.column == old(self)@.column,
                    self@.attr == old(self)@.attr,
                    self@.cells.len() == 25 * 80,
                    old(self)@.cells.len() == 25 * 80,
                    forall|k: int| 0 <= k < i ==> self@.cells[k] == old(self)@.cells[k + 80],
                    forall|k: int| i <= k < 25 * 80 ==> self@.cells[k] == old(self)@.cells[k],
                decreases 24 * 80 - i,
            {
                let ch = self.cells[i + 80];
                self.cells[i] = ch;
                i = i + 1;
            }
            self.column = 0;
            let ghost scrolled = WriterView {
                column: 0,
                cells: Seq::new(
                    old(self)@.cells.len(),
                    |k: int|
                        if k < 24 * 80 {
                            old(self)@.cells[k + 80]
                        } else {
                            old(self)@.cells[k]
                        },
                ),
                ..old(self)@
            };
            proof {
                assert(self@ =~= scrolled);
            }
            self.clear_row(24);
            proof {
                assert(self@ =~= ws_new_line(old(self)@));
            }
        }
    }

    /// Writes one cell at the cursor, wrapping first if the row is full.
    pub fn write_screen(&mut self, ch: ScreenChar)
        requires
            old(self)@.wf(),
        ensures
            final(self)@ == ws_write_screen(old(self)@, ch),
            final(self)@.wf(),
    {
        if self.column >= 80 {
            self.new_line();
        }
        let idx = self.row * 80 + self.column;
        self.cells[idx] = ch;
        self.column = self.column + 1;
        proof {
            assert(self@ =~= ws_write_screen(old(self)@, ch));
        }
    }

    /// Writes one byte: a line feed breaks the line, printable ASCII lands
    /// as itself, anything else as the 0xfe block.
    pub fn write_byte(&mut self, byte: u8)
        requires
            old(self)@.wf(),
        ensures
            final(self)@ == ws_write_byte(old(self)@, byte),
            final(self)@.wf(),
    {
        if byte == 10 {
            self.new_line();
        } else if 0x20 <= byte && byte <= 0x7e {
            let attr = self.attr;
            self.write_screen(ScreenChar { code: byte, attr });
        } else {
            let attr = self.attr;
            self.write_screen(ScreenChar { code: 0xfe, attr });
        }
    }

    /// Clears the whole screen to blanks in the given attribute, which also
    /// becomes the writer's attribute, and homes the cursor.
    pub fn clear_screen(&mut self, attr: ScreenAttribute)
        requires
            old(self)@.wf(),
        ensures
            final(self)@.wf(),
            final(self)@.row == 0,
            final(self)@.column == 0,
            final(self)@.attr == attr,
            forall|i: int| 0 <= i < 25 * 80 ==> final(self)@.cells[i] == blank_char(attr),
    {
        self.attr = attr;
        let mut r: usize = 0;
        while r < 25
            invariant
                r <= 25,
                self@.wf(),
                self@.attr == attr,
                self@.row == old(self)@.row,
                self@.column == old(self)@.column,
                forall|i: int| 0 <= i < r * 80 ==> self@.cells[i] == blank_char(attr),
            decreases 25 - r,
        {
            self.clear_row(r);
            r = r + 1;
        }
        self.set_cursor_position(1, 1);
    }
}

/// The grid after a string is laid down at a fixed position in a fixed
/// attribute, without touching the cursor: cell `k` of the run takes byte
/// `k`'s glyph.
pub open spec fn ws_display(
    v: WriterView,
    s: Seq<u8>,
    row0: int,
    col0: int,
    attr: ScreenAttribute,
) -> WriterView {
    WriterView {
        cells: Seq::new(
            v.cells.len(),
            |i: int|
                if row0 * 80 + col0 <= i < row0 * 80 + col0 + s.len() {
                    ScreenChar { code: glyph(s[i - (row0 * 80 + col0)]), attr }
                } else {
                    v.cells[i]
                },
        ),
        ..v
    }
}

/// Writes a string at a one-based row and column in the given attribute,
/// directly into the grid: the cursor and the writer's own attribute stay
/// put.  The run must fit on the row, and line feeds are not taken: the
/// callers of this display path write short, single-line values.
pub fn display(w: &mut Writer, s: &[u8], pos: (u8, u8), attr: ScreenAttribute)
    requires
        old(w)@.wf(),
        1 <= pos.0 <= 25,
        1 <= pos.1 <= 80,
        pos.1 - 1 + s@.len() <= 80,
        forall|k: int| 0 <= k < s@.len() ==> s@[k] != 10,
    ensures
        final(w)@ == ws_display(old(w)@, s@, pos.0 - 1, pos.1 - 1, attr),
        final(w)@.wf(),
{
    let row0 = (pos.0 - 1) as usize;
    let col0 = (pos.1 - 1) as usize;
    let base = row0 * 80 + col0;
    let mut k: usize = 0;
    while k < s.len()
        invariant
            k <= s@.len(),
            row0 < 25,
            col0 + s@.len() <= 80,
            base == row0 * 80 + col0,
            w@.row == old(w)@.row,
            w@.column == old(w)@.column,
            w@.attr == old(w)@.attr,
            w@.cells.len() == 25 * 80,
            old(w)@.cells.len() == 25 * 80,
            forall|i: int|
                base <= i < base + k ==> w@.cells[i] == (ScreenChar {
                    code: glyph(s@[i - base]),
                    attr,
                }),
            forall|i: int|
                0 <= i < 25 * 80 && !(base <= i < base + k) ==> w@.cells[i] == old(w)@.cells[i],
        decreases s@.len() - k,
    {
        let b = s[k];
        let code = if 0x20 <= b && b <= 0x7e {
            b
        } else {
            0xfe
        };
        w.cells[base + k] = ScreenChar { code, attr };
        k = k + 1;
    }
    proof {
        assert(w@ =~= ws_display(old(w)@, s@, pos.0 - 1, pos.1 - 1, attr));
    }
}

/// The index of the first `d` in `s`, or `s.len()` if there is none.
pub open spec fn find_delim(s: Seq<u8>, d: u8) -> nat
    decreases s.len(),
{
    if s.len() == 0 {
        0
    } else if s[0] == d {
        0
    } else {
        1 + find_delim(s.drop_first(), d)
    }
}

/// The value of a run of decimal digit bytes.
pub open spec fn digits_value(s: Seq<u8>) -> int
    decreases s.len(),
{
    if s.len() == 0 {
        0
    } else {
        digits_value(s.drop_last()) * 10 + (s.last() - 48)
    }
}

/// Whether every byte of `s` is a decimal digit.
pub open spec fn all_digits(s: Seq<u8>) -> bool {
    forall|i: int| 0 <= i < s.len() ==> 48 <= #[trigger] s[i] <= 57
}

/// What parsing `s` as a `u8` yields: an optional leading plus sign, then at
/// least one digit, with a value up to 255; anything else fails.
pub open spec fn spec_parse_u8(s: Seq<u8>) -> Option<u8> {
    let t = if s.len() > 0 && s[0] == 43 {
        s.drop_first()
    } else {
        s
    };
    if t.len() > 0 && all_digits(t) && digits_value(t) <= 255 {
        Some(digits_value(t) as u8)
    } else {
        None
    }
}

/// `s` split at every `d`, each piece parsed as a `u8`.  Splitting never
/// yields no pieces: the empty string is one empty, unparsable piece.
pub open spec fn spec_split(s: Seq<u8>, d: u8) -> Seq<Option<u8>>
    decreases s.len(),
{
    let m = find_delim(s, d);
    if m >= s.len() {
        seq![spec_parse_u8(s)]
    } else {
        seq![spec_parse_u8(s.take(m as int))] + spec_split(s.skip(m as int + 1), d)
    }
}

/// `find_delim` is the first delimiter position: knowing that everything
/// before `m` is not `d`, and that `m` is the end or a `d`, pins it.
proof fn lemma_find_delim(s: Seq<u8>, d: u8, m: nat)
    requires
        m <= s.len(),
        forall|k: int| 0 <= k < m ==> s[k] != d,
        m == s.len() || s[m as int] == d,
    ensures
        find_delim(s, d) == m,
    decreases m,
{
    if m == 0 {
    } else {
        assert(s[0] != d);
        lemma_find_delim(s.drop_first(), d, (m - 1) as nat);
        assert(forall|k: int|
            0 <= k < s.drop_first().len() ==> s.drop_first()[k] == s[k + 1]);
    }
}

/// Parses `s[from..to]` as a `u8`, as the standard decimal parser would: an
/// optional plus sign, then digits, rejecting empty runs, stray bytes and
/// values past 255.
pub fn parse_u8(s: &[u8], from: usize, to: usize) -> (r: Option<u8>)
    requires
        from <= to <= s@.len(),
    ensures
        r == spec_parse_u8(s@.subrange(from as int, to as int)),
{
    let ghost whole = s@.subrange(from as int, to as int);
    let start = if to > from && s[from] == 43 {
        from + 1
    } else {
        from
    };
    let ghost t = s@.subrange(start as int, to as int);
    proof {
        if to > from && s@[from as int] == 43 {
            assert(t =~= whole.drop_first());
        } else {
            assert(t =~= whole);
        }
    }
    if start == to {
        return None;
    }
    let mut acc: u32 = 0;
    let mut over: bool = false;
    let mut i: usize = start;
    while i < to
        invariant
            start < to,
            from <= start <= i <= to <= s@.len(),
            whole == s@.subrange(from as int, to as int),
            t == s@.subrange(start as int, to as int),
            t.len() > 0,
            spec_parse_u8(whole) == (if all_digits(t) && digits_value(t) <= 255 {
                Some(digits_value(t) as u8)
            } else {
                None::<u8>
            }),
            all_digits(s@.subrange(start as int, i as int)),
            over <==> digits_value(s@.subrange(start as int, i as int)) > 255,
            !over ==> acc == digits_value(s@.subrange(start as int, i as int)),
            acc <= 256,
        decreases to - i,
    {
        let b = s[i];
        if b < 48 || b > 57 {
            proof {
                assert(t[i - start] == b);
            }
            return None;
        }
        proof {
            assert(s@.subrange(start as int, i as int + 1).drop_last() =~= s@.subrange(
                start as int,
                i as int,
            ));
            assert(s@.subrange(start as int, i as int + 1).last() == b);
        }
        let next = acc * 10 + (b - 48) as u32;
        if next > 255 {
            over = true;
            acc = 256;
        } else {
            acc = next;
        }
        i = i + 1;
    }
    if over {
        None
    } else {
        Some(acc as u8)
    }
}

/// Splits `s[from..to]` at every `delimiter` and parses each piece, exactly
/// as splitting the string and parsing each part would.
pub fn split(s: &[u8], from: usize, to: usize, delimiter: u8) -> (r: Vec<Option<u8>>)
    requires
        from <= to <= s@.len(),
    ensures
        r@ == spec_split(s@.subrange(from as int, to as int), delimiter),
{
    let ghost whole = s@.subrange(from as int, to as int);
    let mut out: Vec<Option<u8>> = Vec::new();
    let mut piece_start: usize = from;
    let mut j: usize = from;
    proof {
        assert(whole.skip(0) =~= whole);
        assert(Seq::<Option<u8>>::empty() + spec_split(whole, delimiter) =~= spec_split(
            whole,
            delimiter,
        ));
    }
    loop
        invariant_except_break
            spec_split(whole, delimiter) == out@ + spec_split(
                whole.skip(piece_start as int - from),
                delimiter,
            ),
        invariant
            from <= piece_start <= j <= to <= s@.len(),
            whole == s@.subrange(from as int, to as int),
            forall|k: int| piece_start <= k < j ==> s@[k] != delimiter,
        ensures
            out@ == spec_split(whole, delimiter),
        decreases to - j,
    {
        let ghost rest = whole.skip(piece_start as int - from);
        if j == to {
            let piece = parse_u8(s, piece_start, to);
            out.push(piece);
            proof {
                assert(rest =~= s@.subrange(piece_start as int, to as int));
                lemma_find_delim(rest, delimiter, rest.len());
                assert(spec_split(rest, delimiter) =~= seq![spec_parse_u8(rest)]);
                assert(out@ =~= spec_split(whole, delimiter));
            }
            break ;
        }
        if s[j] == delimiter {
            let piece = parse_u8(s, piece_start, j);
            out.push(piece);
            proof {
                let m = (j - piece_start) as nat;
                assert(forall|k: int| 0 <= k < m ==> rest[k] == s@[piece_start + k]);
                lemma_find_delim(rest, delimiter, m);
                assert(rest.take(m as int) =~= s@.subrange(piece_start as int, j as int));
                assert(rest.skip(m as int + 1) =~= whole.skip(j + 1 - from));
                assert(spec_split(rest, delimiter) == seq![spec_parse_u8(rest.take(m as int))]
                    + spec_split(rest.skip(m as int + 1), delimiter));
                assert(out@ + spec_split(whole.skip(j + 1 - from), delimiter) =~= spec_split(
                    whole,
                    delimiter,
                ));
            }
            piece_start = j + 1;
        }
        j = j + 1;
    }
    out
}


/// The attribute after one SGR code: 30 through 37 recolor the foreground,
/// 40 through 47 the background; any other code, or an unparsable one,
/// writes the error marker instead.
pub open spec fn ws_apply_sgr_code(v: WriterView, code: Option<u8>) -> WriterView {
    match code {
        Some(n) => {
            if 30 <= n <= 37 {
                WriterView {
                    attr: ScreenAttribute::spec_new(
                        Color::spec_from_ansi((n - 30) as u8),
                        Color::spec_from_code(v.attr.0 >> 4),
                    ),
                    ..v
                }
            } else if 40 <= n <= 47 {
                WriterView {
                    attr: ScreenAttribute::spec_new(
                        Color::spec_from_code(v.attr.0),
                        Color::spec_from_ansi((n - 40) as u8),
                    ),
                    ..v
                }
            } else {
                ws_write_screen(v, ansi_error_char())
            }
        },
        None => ws_write_screen(v, ansi_error_char()),
    }
}

/// The writer after the SGR codes from `codes[i]` on, applied in order.
pub open spec fn ws_apply_sgr_codes(v: WriterView, codes: Seq<Option<u8>>, i: int) -> WriterView
    decreases codes.len() - i,
{
    if i < 0 || i >= codes.len() {
        v
    } else {
        ws_apply_sgr_codes(ws_apply_sgr_code(v, codes[i]), codes, i + 1)
    }
}

/// The writer after one whole SGR sequence: no arguments, or the single
/// argument 0, reset the attribute to the default; anything else is split
/// at semicolons and applied code by code.
pub open spec fn ws_write_sgr(v: WriterView, args: Seq<u8>) -> WriterView {
    if args.len() == 0 || args == seq![48u8] {
        WriterView { attr: ScreenAttribute::spec_new(Color::LightGray, Color::Black), ..v }
    } else {
        ws_apply_sgr_codes(v, spec_split(args, 59), 0)
    }
}

/// The writer after one whole CSI sequence, chosen by its final byte:
/// `m` selects graphic rendition, `H` moves the cursor to a one-based row
/// and column on the screen; any other final byte, a malformed argument
/// list, or a position off the screen writes the error marker.
pub open spec fn ws_write_csi(v: WriterView, fin: u8, args: Seq<u8>) -> WriterView {
    if fin == 109 {
        ws_write_sgr(v, args)
    } else if fin == 72 {
        let parsed = spec_split(args, 59);
        if parsed.len() == 2 && (parsed[0] matches Some(r) && (parsed[1] matches Some(c) && 1 <= r
            <= 25 && 1 <= c <= 80)) {
            WriterView { row: parsed[0]->Some_0 - 1, column: parsed[1]->Some_0 - 1, ..v }
        } else {
            ws_write_screen(v, ansi_error_char())
        }
    } else {
        ws_write_screen(v, ansi_error_char())
    }
}

/// The writer after the bytes of `s` from index `i` on, scanned in `state`
/// with the current sequence's arguments starting at `arg_start`.  Regular
/// bytes land on the screen; an escape opens a sequence; parameter bytes
/// are gathered until the final byte applies the sequence; a malformed
/// sequence writes the error marker and scanning starts over.  A sequence
/// still open at the end of the string is simply dropped.
pub open spec fn ws_write_string_from(
    v: WriterView,
    s: Seq<u8>,
    i: int,
    state: Ansi,
    arg_start: int,
) -> WriterView
    decreases s.len() - i,
{
    if i < 0 || i >= s.len() {
        v
    } else {
        let b = s[i];
        match state {
            Ansi::Start => {
                if b == 27 {
                    ws_write_string_from(v, s, i + 1, Ansi::Esc, arg_start)
                } else {
                    ws_write_string_from(ws_write_byte(v, b), s, i + 1, Ansi::Start, arg_start)
                }
            },
            Ansi::Esc => {
                if b == 91 {
                    ws_write_string_from(v, s, i + 1, Ansi::Csi, i + 1)
                } else {
                    ws_write_string_from(
                        ws_write_screen(v, ansi_error_char()),
                        s,
                        i + 1,
                        Ansi::Start,
                        arg_start,
                    )
                }
            },
            Ansi::Csi => {
                if 0x20 <= b <= 0x3f {
                    ws_write_string_from(v, s, i + 1, Ansi::Csi, arg_start)
                } else if 0x40 <= b <= 0x7e {
                    ws_write_string_from(
                        ws_write_csi(v, b, s.subrange(arg_start, i)),
                        s,
                        i + 1,
                        Ansi::Start,
                        arg_start,
                    )
                } else {
                    ws_write_string_from(
                        ws_write_screen(v, ansi_error_char()),
                        s,
                        i + 1,
                        Ansi::Start,
                        arg_start,
                    )
                }
            },
        }
    }
}

impl Writer {
    /// Writes the error marker cell.
    fn write_error(&mut self)
        requires
            old(self)@.wf(),
        ensures
            final(self)@ == ws_write_screen(old(self)@, ansi_error_char()),
            final(self)@.wf(),
    {
        self.write_screen(
            ScreenChar { code: 13, attr: ScreenAttribute::new(Color::White, Color::Black) },
        );
    }

    /// Applies one SGR sequence whose arguments are `s[from..to]`.
    fn write_sgr(&mut self, s: &[u8], from: usize, to: usize)
        requires
            old(self)@.wf(),
            from <= to <= s@.len(),
        ensures
            final(self)@ == ws_write_sgr(old(self)@, s@.subrange(from as int, to as int)),
            final(self)@.wf(),
    {
        let ghost args = s@.subrange(from as int, to as int);
        if to == from || (to - from == 1 && s[from] == 48) {
            proof {
                if to != from {
                    assert(args =~= seq![48u8]);
                }
            }
            self.set_attribute(ScreenAttribute::new(Color::LightGray, Color::Black));
        } else {
            proof {
                if args.len() == 1 {
                    assert(args[0] == s@[from as int]);
                    assert(args != seq![48u8]) by {
                        if args == seq![48u8] {
                            assert(args[0] == 48);
                        }
                    }
                }
            }
            let codes = split(s, from, to, 59);
            let n = codes.len();
            let mut i: usize = 0;
            while i < n
                invariant
                    i <= n,
                    n == codes@.len(),
                    self@.wf(),
                    ws_apply_sgr_codes(self@, codes@, i as int) == ws_apply_sgr_codes(
                        old(self)@,
                        codes@,
                        0,
                    ),
                decreases n - i,
            {
                match codes[i] {
                    Some(c) => {
                        if 30 <= c && c <= 37 {
                            let bg = self.attr.background();
                            self.set_attribute(ScreenAttribute::new(Color::from_ansi(c - 30), bg));
                        } else if 40 <= c && c <= 47 {
                            let fg = self.attr.foreground();
                            self.set_attribute(ScreenAttribute::new(fg, Color::from_ansi(c - 40)));
                        } else {
                            self.write_error();
                        }
                    },
                    None => {
                        self.write_error();
                    },
                }
                i = i + 1;
            }
        }
    }

    /// Applies one CSI sequence: its final byte and its argument bytes
    /// `s[from..to]`.
    fn write_csi(&mut self, fin: u8, s: &[u8], from: usize, to: usize)
        requires
            old(self)@.wf(),
            from <= to <= s@.len(),
        ensures
            final(self)@ == ws_write_csi(old(self)@, fin, s@.subrange(from as int, to as int)),
            final(self)@.wf(),
    {
        if fin == 109 {
            self.write_sgr(s, from, to);
        } else if fin == 72 {
            let parsed = split(s, from, to, 59);
            if parsed.len() == 2 {
                match (parsed[0], parsed[1]) {
                    (Some(r), Some(c)) => {
                        if 1 <= r && r <= 25 && 1 <= c && c <= 80 {
                            self.set_cursor_position(r, c);
                        } else {
                            self.write_error();
                        }
                    },
                    _ => {
                        self.write_error();
                    },
                }
            } else {
                self.write_error();
            }
        } else {
            self.write_error();
        }
    }

    /// Writes a whole string, ANSI escape sequences included: regular bytes
    /// land at the cursor, `ESC [ ... m` recolors, `ESC [ r ; c H` moves
    /// the cursor, and anything malformed shows as the error marker.
    pub fn write_string(&mut self, s: &[u8])
        requires
            old(self)@.wf(),
        ensures
            final(self)@ == ws_write_string_from(old(self)@, s@, 0, Ansi::Start, 0),
            final(self)@.wf(),
    {
        let mut state = Ansi::Start;
        let mut arg_start: usize = 0;
        let mut i: usize = 0;
        let n = s.len();
        while i < n
            invariant
                i <= n,
                n == s@.len(),
                arg_start <= n,
                state is Csi ==> arg_start <= i,
                self@.wf(),
                ws_write_string_from(self@, s@, i as int, state, arg_start as int)
                    == ws_write_string_from(old(self)@, s@, 0, Ansi::Start, 0),
            decreases n - i,
        {
            let b = s[i];
            match state {
                Ansi::Start => {
                    if b == 27 {
                        state = Ansi::Esc;
                    } else {
                        self.write_byte(b);
                    }
                },
                Ansi::Esc => {
                    if b == 91 {
                        state = Ansi::Csi;
                        arg_start = i + 1;
                    } else {
                        self.write_error();
                        state = Ansi::Start;
                    }
                },
                Ansi::Csi => {
                    if 0x20 <= b && b <= 0x3f {
                    } else if 0x40 <= b && b <= 0x7e {
                        self.write_csi(b, s, arg_start, i);
                        state = Ansi::Start;
                    } else {
                        self.write_error();
                        state = Ansi::Start;
                    }
                },
            }
            i = i + 1;
        }
    }
}

} // verus!
