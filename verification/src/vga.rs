//! The VGA text console: a screen of `MAX_HEIGHT` rows of `MAX_WIDTH` characters. Text is
//! written into the bottom row; a new line scrolls the screen up by one row.
//!
//! The screen is held here as values; the caller copies it to the text buffer at `VGA_ADDR`.

use vstd::prelude::*;
use vstd::string::StringSliceAdditionalSpecFns;

verus! {

pub const MAX_HEIGHT: usize = 25;

pub const MAX_WIDTH: usize = 80;

/// Physical address of the text buffer.
pub const VGA_ADDR: u64 = 0xb8000;

/// The sixteen colours of the text mode palette.
#[derive(Debug, Clone, Copy, PartialEq, Eq, Structural)]
pub enum Color {
    Black,
    Blue,
    Green,
    Cyan,
    Red,
    Magenta,
    Brown,
    LightGray,
    DarkGray,
    LightBlue,
    LightGreen,
    LightCyan,
    LightRed,
    Pink,
    Yellow,
    White,
}

impl Color {
    /// The palette index of the colour.
    pub open spec fn index_spec(self) -> u8 {
        match self {
            Color::Black => 0,
            Color::Blue => 1,
            Color::Green => 2,
            Color::Cyan => 3,
            Color::Red => 4,
            Color::Magenta => 5,
            Color::Brown => 6,
            Color::LightGray => 7,
            Color::DarkGray => 8,
            Color::LightBlue => 9,
            Color::LightGreen => 10,
            Color::LightCyan => 11,
            Color::LightRed => 12,
            Color::Pink => 13,
            Color::Yellow => 14,
            Color::White => 15,
        }
    }

    /// The palette index of the colour.
    pub fn index(self) -> (r: u8)
        ensures
            r == self.index_spec(),
            r < 16,
    {
        match self {
            Color::Black => 0,
            Color::Blue => 1,
            Color::Green => 2,
            Color::Cyan => 3,
            Color::Red => 4,
            Color::Magenta => 5,
            Color::Brown => 6,
            Color::LightGray => 7,
            Color::DarkGray => 8,
            Color::LightBlue => 9,
            Color::LightGreen => 10,
            Color::LightCyan => 11,
            Color::LightRed => 12,
            Color::Pink => 13,
            Color::Yellow => 14,
            Color::White => 15,
        }
    }
}

/// A foreground colour in the low four bits and a background colour in the high four.
#[derive(Debug, Clone, Copy, PartialEq, Eq, Structural)]
pub struct ColorCode(pub u8);

impl ColorCode {
    pub fn new(foreground: Color, background: Color) -> (r: ColorCode)
        ensures
            r.0 == background.index_spec() * 16 + foreground.index_spec(),
    {
        let fg = foreground.index();
        let bg = background.index();
        assert((bg << 4u8) | fg == bg * 16 + fg) by (bit_vector)
            requires
                bg < 16,
                fg < 16,
        ;
        ColorCode((bg << 4u8) | fg)
    }
}

/// One character cell of the screen.
#[derive(Debug, Clone, Copy, PartialEq, Eq, Structural)]
pub struct ScreenChar {
    pub ascii_character: u8,
    pub color_code: ColorCode,
}

/// A space in the given colours.
pub open spec fn blank(color_code: ColorCode) -> ScreenChar {
    ScreenChar { ascii_character: 32, color_code }
}

pub open spec fn blank_row(color_code: ColorCode) -> Seq<ScreenChar> {
    Seq::new(MAX_WIDTH as nat, |c: int| blank(color_code))
}

/// The screen moved up by one row, with a blank bottom row.
pub open spec fn scrolled(rows: Seq<Seq<ScreenChar>>, color_code: ColorCode) -> Seq<Seq<ScreenChar>> {
    Seq::new(
        MAX_HEIGHT as nat,
        |r: int|
            if r < MAX_HEIGHT - 1 {
                rows[r + 1]
            } else {
                blank_row(color_code)
            },
    )
}

/// What the screen and the column are after writing `byte`.
pub open spec fn write_byte_spec(
    rows: Seq<Seq<ScreenChar>>,
    column: int,
    color_code: ColorCode,
    byte: u8,
) -> (Seq<Seq<ScreenChar>>, int) {
    if byte == 10 {
        (scrolled(rows, color_code), 0)
    } else {
        let base = if column >= MAX_WIDTH {
            scrolled(rows, color_code)
        } else {
            rows
        };
        let col = if column >= MAX_WIDTH {
            0
        } else {
            column
        };
        let ch = ScreenChar { ascii_character: byte, color_code };
        (base.update(MAX_HEIGHT - 1, base[MAX_HEIGHT - 1].update(col, ch)), col + 1)
    }
}

/// What the screen and the column are after writing `bytes` one after the other.
pub open spec fn write_bytes_spec(
    rows: Seq<Seq<ScreenChar>>,
    column: int,
    color_code: ColorCode,
    bytes: Seq<u8>,
) -> (Seq<Seq<ScreenChar>>, int)
    decreases bytes.len(),
{
    if bytes.len() == 0 {
        (rows, column)
    } else {
        let prefix = write_bytes_spec(rows, column, color_code, bytes.drop_last());
        write_byte_spec(prefix.0, prefix.1, color_code, bytes.last())
    }
}

/// `k` new-line bytes.
pub open spec fn new_lines(k: nat) -> Seq<u8> {
    Seq::new(k, |i: int| 10u8)
}

/// Writing `k` new lines moves the screen up by `k` rows: row `r` then holds what row
/// `r + k` held, the bottom `k` rows are blank, and (after at least one) the column is 0.
pub proof fn lemma_new_lines_scroll(
    rows: Seq<Seq<ScreenChar>>,
    column: int,
    color_code: ColorCode,
    k: nat,
)
    requires
        rows.len() == MAX_HEIGHT,
    ensures
        write_bytes_spec(rows, column, color_code, new_lines(k)).0.len() == MAX_HEIGHT,
        forall|r: int|
            0 <= r < MAX_HEIGHT ==> #[trigger] write_bytes_spec(
                rows,
                column,
                color_code,
                new_lines(k),
            ).0[r] == if r + k < MAX_HEIGHT {
                rows[r + k]
            } else {
                blank_row(color_code)
            },
        k > 0 ==> write_bytes_spec(rows, column, color_code, new_lines(k)).1 == 0,
    decreases k,
{
    let lines = new_lines(k);
    if k == 0 {
        assert(lines.len() == 0);
    } else {
        let fewer = new_lines((k - 1) as nat);
        assert(lines.drop_last() =~= fewer);
        lemma_new_lines_scroll(rows, column, color_code, (k - 1) as nat);
        let prev = write_bytes_spec(rows, column, color_code, fewer);
        assert(lines.last() == 10u8);
        assert(write_bytes_spec(rows, column, color_code, lines) == write_byte_spec(
            prev.0,
            prev.1,
            color_code,
            10u8,
        ));
        assert forall|r: int| 0 <= r < MAX_HEIGHT implies #[trigger] write_bytes_spec(
            rows,
            column,
            color_code,
            lines,
        ).0[r] == if r + k < MAX_HEIGHT {
            rows[r + k]
        } else {
            blank_row(color_code)
        } by {
            if r < MAX_HEIGHT - 1 {
                assert(prev.0[r + 1] == if r + 1 + (k - 1) < MAX_HEIGHT {
                    rows[r + 1 + (k - 1)]
                } else {
                    blank_row(color_code)
                });
            }
        }
    }
}

/// Writing two strings one after the other is writing their concatenation.
pub proof fn lemma_write_bytes_concat(
    rows: Seq<Seq<ScreenChar>>,
    column: int,
    color_code: ColorCode,
    a: Seq<u8>,
    b: Seq<u8>,
)
    ensures
        write_bytes_spec(rows, column, color_code, a + b) == ({
            let first = write_bytes_spec(rows, column, color_code, a);
            write_bytes_spec(first.0, first.1, color_code, b)
        }),
    decreases b.len(),
{
    if b.len() == 0 {
        assert(a + b =~= a);
    } else {
        assert((a + b).drop_last() =~= a + b.drop_last());
        lemma_write_bytes_concat(rows, column, color_code, a, b.drop_last());
        assert((a + b).last() == b.last());
    }
}

/// The text console.
pub struct Writer {
    column_position: usize,
    color_code: ColorCode,
    buffer: Vec<Vec<ScreenChar>>,
}

impl Writer {
    /// The characters on screen, row by row from the top.
    pub closed spec fn rows(&self) -> Seq<Seq<ScreenChar>> {
        Seq::new(self.buffer@.len(), |r: int| self.buffer@[r]@)
    }

    pub closed spec fn column(&self) -> int {
        self.column_position as int
    }

    pub closed spec fn color(&self) -> ColorCode {
        self.color_code
    }

    pub open spec fn wf(&self) -> bool {
        &&& self.rows().len() == MAX_HEIGHT
        &&& forall|r: int| 0 <= r < MAX_HEIGHT ==> (#[trigger] self.rows()[r]).len() == MAX_WIDTH
        &&& 0 <= self.column() <= MAX_WIDTH
    }

    closed spec fn buffer_ok(&self) -> bool {
        &&& self.buffer@.len() == MAX_HEIGHT
        &&& forall|r: int| 0 <= r < MAX_HEIGHT ==> (#[trigger] self.buffer@[r])@.len() == MAX_WIDTH
        &&& self.column_position <= MAX_WIDTH
    }

    proof fn lemma_buffer_ok(&self)
        ensures
            self.wf() <==> self.buffer_ok(),
    {
        if self.buffer_ok() {
            assert forall|r: int| 0 <= r < MAX_HEIGHT implies (#[trigger] self.rows()[r]).len()
                == MAX_WIDTH by {
                assert(self.rows()[r] == self.buffer@[r]@);
            }
        }
        if self.wf() {
            assert forall|r: int| 0 <= r < MAX_HEIGHT implies (#[trigger] self.buffer@[r])@.len()
                == MAX_WIDTH by {
                assert(self.rows()[r] == self.buffer@[r]@);
            }
        }
    }

    /// A blank screen in `color_code`, with the column at the start of the bottom row.
    pub fn new(color_code: ColorCode) -> (r: Writer)
        ensures
            r.wf(),
            r.column() == 0,
            r.color() == color_code,
            r.rows() == Seq::new(MAX_HEIGHT as nat, |r: int| blank_row(color_code)),
    {
        let mut buffer: Vec<Vec<ScreenChar>> = Vec::new();
        let mut row: usize = 0;
        while row < MAX_HEIGHT
            invariant
                row <= MAX_HEIGHT,
                buffer@.len() == row,
                forall|r: int| 0 <= r < row ==> (#[trigger] buffer@[r])@ == blank_row(color_code),
            decreases MAX_HEIGHT - row,
        {
            let mut line: Vec<ScreenChar> = Vec::new();
            let mut col: usize = 0;
            while col < MAX_WIDTH
                invariant
                    col <= MAX_WIDTH,
                    line@.len() == col,
                    forall|c: int| 0 <= c < col ==> #[trigger] line@[c] == blank(color_code),
                decreases MAX_WIDTH - col,
            {
                line.push(ScreenChar { ascii_character: 32u8, color_code });
                col = col + 1;
            }
            assert(line@ =~= blank_row(color_code));
            buffer.push(line);
            row = row + 1;
        }
        let w = Writer { column_position: 0, color_code, buffer };
        proof {
            w.lemma_buffer_ok();
            assert(w.rows() =~= Seq::new(MAX_HEIGHT as nat, |r: int| blank_row(color_code)));
        }
        w
    }

    /// The character at `row`, `col`.
    pub fn char_at(&self, row: usize, col: usize) -> (r: ScreenChar)
        requires
            self.wf(),
            row < MAX_HEIGHT,
            col < MAX_WIDTH,
        ensures
            r == self.rows()[row as int][col as int],
    {
        proof {
            self.lemma_buffer_ok();
        }
        self.buffer[row][col]
    }

    /// The column the next character goes to.
    pub fn column_position(&self) -> (r: usize)
        ensures
            r == self.column(),
    {
        self.column_position
    }

    /// Blanks every row; the column stays where it is.
    pub fn clear_screen(&mut self)
        requires
            old(self).wf(),
        ensures
            final(self).wf(),
            final(self).column() == old(self).column(),
            final(self).color() == old(self).color(),
            final(self).rows() == Seq::new(MAX_HEIGHT as nat, |r: int| blank_row(old(self).color())),
    {
        let mut row: usize = 0;
        while row < MAX_HEIGHT
            invariant
                old(self).wf(),
                self.wf(),
                self.column() == old(self).column(),
                self.color() == old(self).color(),
                row <= MAX_HEIGHT,
                forall|r: int| 0 <= r < row ==> (#[trigger] self.rows()[r]) == blank_row(self.color()),
            decreases MAX_HEIGHT - row,
        {
            self.clear_row(row);
            row = row + 1;
        }
        assert(self.rows() =~= Seq::new(MAX_HEIGHT as nat, |r: int| blank_row(old(self).color())));
    }

    fn clear_row(&mut self, row: usize)
        requires
            old(self).wf(),
            row < MAX_HEIGHT,
        ensures
            final(self).wf(),
            final(self).column() == old(self).column(),
            final(self).color() == old(self).color(),
            final(self).rows() == old(self).rows().update(row as int, blank_row(old(self).color())),
    {
        proof {
            self.lemma_buffer_ok();
        }
        let blank_char = ScreenChar { ascii_character: 32u8, color_code: self.color_code };
        let mut col: usize = 0;
        while col < MAX_WIDTH
            invariant
                self.buffer_ok(),
                self.column_position == old(self).column_position,
                self.color_code == old(self).color_code,
                blank_char == blank(self.color_code),
                row < MAX_HEIGHT,
                col <= MAX_WIDTH,
                forall|r: int| 0 <= r < MAX_HEIGHT && r != row ==> #[trigger] self.buffer@[r] == old(self).buffer@[r],
                forall|c: int| 0 <= c < col ==> #[trigger] self.buffer@[row as int]@[c] == blank_char,
                forall|c: int|
                    col <= c < MAX_WIDTH ==> #[trigger] self.buffer@[row as int]@[c] == old(self).buffer@[row as int]@[c],
            decreases MAX_WIDTH - col,
        {
            self.buffer[row][col] = blank_char;
            col = col + 1;
        }
        proof {
            self.lemma_buffer_ok();
            assert(self.buffer@[row as int]@ =~= blank_row(old(self).color()));
            assert(self.rows() =~= old(self).rows().update(row as int, blank_row(old(self).color())));
        }
    }

    fn new_line(&mut self)
        requires
            old(self).wf(),
        ensures
            final(self).wf(),
            final(self).column() == 0,
            final(self).color() == old(self).color(),
            final(self).rows() == scrolled(old(self).rows(), old(self).color()),
    {
        proof {
            self.lemma_buffer_ok();
            old(self).lemma_buffer_ok();
        }
        let mut row: usize = 1;
        while row < MAX_HEIGHT
            invariant
                self.buffer_ok(),
                old(self).buffer_ok(),
                self.column_position == old(self).column_position,
                self.color_code == old(self).color_code,
                1 <= row <= MAX_HEIGHT,
                forall|r: int| 0 <= r < row - 1 ==> #[trigger] self.buffer@[r]@ == old(self).buffer@[r
                    + 1]@,
                forall|r: int| row - 1 <= r < MAX_HEIGHT ==> #[trigger] self.buffer@[r] == old(self).buffer@[r],
            decreases MAX_HEIGHT - row,
        {
            let mut col: usize = 0;
            while col < MAX_WIDTH
                invariant
                    self.buffer_ok(),
                    old(self).buffer_ok(),
                    self.column_position == old(self).column_position,
                    self.color_code == old(self).color_code,
                    1 <= row < MAX_HEIGHT,
                    col <= MAX_WIDTH,
                    forall|r: int| 0 <= r < row - 1 ==> #[trigger] self.buffer@[r]@ == old(self).buffer@[r + 1]@,
                    forall|r: int| row <= r < MAX_HEIGHT ==> #[trigger] self.buffer@[r] == old(self).buffer@[r],
                    forall|c: int|
                        0 <= c < col ==> #[trigger] self.buffer@[row - 1]@[c] == old(self).buffer@[row as int]@[c],
                    forall|c: int|
                        col <= c < MAX_WIDTH ==> #[trigger] self.buffer@[row - 1]@[c] == old(self).buffer@[row - 1]@[c],
                decreases MAX_WIDTH - col,
            {
                let character = self.buffer[row][col];
                self.buffer[row - 1][col] = character;
                col = col + 1;
            }
            proof {
                assert(self.buffer@[row - 1]@ =~= old(self).buffer@[row as int]@);
            }
            row = row + 1;
        }
        let ghost shifted = *self;
        self.clear_row(MAX_HEIGHT - 1);
        self.column_position = 0;
        proof {
            self.lemma_buffer_ok();
            assert forall|r: int| 0 <= r < MAX_HEIGHT - 1 implies #[trigger] self.rows()[r] == old(self).rows()[r + 1] by {
                assert(self.rows()[r] == shifted.rows()[r]);
                assert(shifted.rows()[r] == shifted.buffer@[r]@);
            }
            assert(self.rows() =~= scrolled(old(self).rows(), old(self).color()));
        }
    }

    /// Writes one byte: a new line for a line feed, else the character at the column of the
    /// bottom row, after a new line when that row is full.
    pub fn write_byte(&mut self, byte: u8)
        requires
            old(self).wf(),
        ensures
            final(self).wf(),
            final(self).color() == old(self).color(),
            (final(self).rows(), final(self).column()) == write_byte_spec(
                old(self).rows(),
                old(self).column(),
                old(self).color(),
                byte,
            ),
    {
        if byte == 10u8 {
            self.new_line();
        } else {
            if self.column_position >= MAX_WIDTH {
                self.new_line();
            }
            let row = MAX_HEIGHT - 1;
            let col = self.column_position;
            let ghost before = *self;
            proof {
                self.lemma_buffer_ok();
            }
            let color_code = self.color_code;
            self.buffer[row][col] = ScreenChar { ascii_character: byte, color_code };
            self.column_position = self.column_position + 1;
            proof {
                self.lemma_buffer_ok();
                assert(self.rows() =~= before.rows().update(
                    row as int,
                    before.rows()[row as int].update(
                        col as int,
                        ScreenChar { ascii_character: byte, color_code },
                    ),
                ));
            }
        }
    }

    /// Writes the bytes of `s` one after the other.
    pub fn write_str(&mut self, s: &str)
        requires
            old(self).wf(),
        ensures
            final(self).wf(),
            final(self).color() == old(self).color(),
            (final(self).rows(), final(self).column()) == write_bytes_spec(
                old(self).rows(),
                old(self).column(),
                old(self).color(),
                s.spec_bytes(),
            ),
    {
        let bytes = s.as_bytes();
        let mut i: usize = 0;
        while i < bytes.len()
            invariant
                self.wf(),
                self.color() == old(self).color(),
                bytes@ == s.spec_bytes(),
                i <= bytes@.len(),
                (self.rows(), self.column()) == write_bytes_spec(
                    old(self).rows(),
                    old(self).column(),
                    old(self).color(),
                    bytes@.subrange(0, i as int),
                ),
            decreases bytes@.len() - i,
        {
            proof {
                assert(bytes@.subrange(0, i + 1).drop_last() =~= bytes@.subrange(0, i as int));
            }
            self.write_byte(bytes[i]);
            i = i + 1;
        }
        assert(bytes@.subrange(0, bytes@.len() as int) =~= bytes@);
    }
}

} // verus!
