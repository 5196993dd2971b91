use vstd::prelude::*;
use vstd::string::StringSliceAdditionalSpecFns;
use crate::buffer::{cells, read_char, write_char, Buffer, ScreenChar, BUFFER_HEIGHT, BUFFER_WIDTH};
use crate::color::ColorCode;

verus! {

/// The rows of a grid.
pub type Grid = Seq<Seq<ScreenChar>>;

/// The byte that starts a new line.
pub const NEWLINE: u8 = 0x0a;

/// The byte of a blank cell.
pub const SPACE: u8 = 0x20;

/// The byte that stands in for one that cannot be shown.
pub const UNPRINTABLE: u8 = 0xfe;

/// A blank cell in a color.
pub open spec fn blank(color: ColorCode) -> ScreenChar {
    ScreenChar { ascii_character: 0x20, color_code: color }
}

/// A row of blank cells.
pub open spec fn blank_row(color: ColorCode) -> Seq<ScreenChar> {
    Seq::new(80, |c: int| blank(color))
}

/// The grid moved up one row, with a blank bottom row.
pub open spec fn scrolled(g: Grid, color: ColorCode) -> Grid {
    Seq::new(25, |r: int| if r < 24 { g[r + 1] } else { blank_row(color) })
}

/// The grid with one cell of the bottom row replaced.
pub open spec fn placed(g: Grid, col: int, c: ScreenChar) -> Grid {
    g.update(24, g[24].update(col, c))
}

/// Whether a byte is shown as it is: printable ASCII, or a newline.
pub open spec fn is_shown(b: u8) -> bool {
    (0x20 <= b && b <= 0x7e) || b == 0x0a
}

/// The byte that a string byte is written as.
pub open spec fn shown(b: u8) -> u8 {
    if is_shown(b) { b } else { 0xfe }
}

/// Column and grid after writing one byte.
pub open spec fn after_byte(col: int, g: Grid, color: ColorCode, b: u8) -> (int, Grid) {
    if b == 0x0a {
        (0, scrolled(g, color))
    } else if col >= 80 {
        (1, placed(scrolled(g, color), 0, ScreenChar { ascii_character: b, color_code: color }))
    } else {
        (col + 1, placed(g, col, ScreenChar { ascii_character: b, color_code: color }))
    }
}

/// Column and grid after writing the bytes of a string in order.
pub open spec fn after_bytes(col: int, g: Grid, color: ColorCode, bytes: Seq<u8>) -> (int, Grid)
    decreases bytes.len(),
{
    if bytes.len() == 0 {
        (col, g)
    } else {
        let prev = after_bytes(col, g, color, bytes.drop_last());
        after_byte(prev.0, prev.1, color, shown(bytes.last()))
    }
}

/// Whether a grid has 25 rows of 80 cells.
pub open spec fn well_shaped(g: Grid) -> bool {
    g.len() == 25 && forall|r: int| 0 <= r < 25 ==> #[trigger] g[r].len() == 80
}

/// Writes text into the bottom row of a grid, moving the rows up on a new line.
pub struct Writer {
    column_position: usize,
    color_code: ColorCode,
    buffer: &'static mut Buffer,
}

impl Writer {
    /// The cursor column on the bottom row.
    pub closed spec fn column(&self) -> int {
        self.column_position as int
    }

    /// The color of every cell the writer writes.
    pub closed spec fn color(&self) -> ColorCode {
        self.color_code
    }

    /// What the grid shows.
    pub closed spec fn grid(&self) -> Grid {
        cells(&*self.buffer)
    }

    /// The writer's state is consistent: the column is within the row.
    pub open spec fn inv(&self) -> bool {
        0 <= self.column() <= 80 && well_shaped(self.grid())
    }

    /// A writer at column 0 over a grid.
    pub fn new(color_code: ColorCode, buffer: &'static mut Buffer) -> (r: Writer)
        ensures
            r.inv(),
            r.column() == 0,
            r.color() == color_code,
            r.grid() == cells(&*old(buffer)),
    {
        Writer { column_position: 0, color_code, buffer }
    }

    /// The cursor column.
    pub fn column_position(&self) -> (r: usize)
        ensures
            r == self.column(),
    {
        self.column_position
    }

    /// The color of every cell the writer writes.
    pub fn color_code(&self) -> (r: ColorCode)
        ensures
            r == self.color(),
    {
        self.color_code
    }

    /// The cell at a row and column of the grid.
    pub fn read_cell(&self, row: usize, col: usize) -> (r: ScreenChar)
        requires
            row < BUFFER_HEIGHT,
            col < BUFFER_WIDTH,
        ensures
            r == self.grid()[row as int][col as int],
    {
        read_char(&*self.buffer, row, col)
    }

    /// Writes one byte: a newline starts a new line; any other byte is placed
    /// at the cursor on the bottom row, after a new line if the row is full.
    /// A byte that is neither printable ASCII nor a newline is placed as the
    /// placeholder glyph.
    pub fn write_byte(&mut self, byte: u8)
        requires
            old(self).inv(),
        ensures
            final(self).inv(),
            final(self).color() == old(self).color(),
            (final(self).column(), final(self).grid())
                == after_byte(old(self).column(), old(self).grid(), old(self).color(), shown(byte)),
    {
        let byte = if (0x20 <= byte && byte <= 0x7e) || byte == NEWLINE {
            byte
        } else {
            UNPRINTABLE
        };
        if byte == NEWLINE {
            self.new_line();
        } else {
            if self.column_position >= BUFFER_WIDTH {
                self.new_line();
            }
            let row = BUFFER_HEIGHT - 1;
            let col = self.column_position;
            let color_code = self.color_code;
            write_char(self.buffer, row, col, ScreenChar { ascii_character: byte, color_code });
            self.column_position += 1;
        }
    }

    /// Writes the bytes of a string in order: printable ASCII and newlines as
    /// they are, any other byte as the placeholder glyph.
    pub fn write_string(&mut self, s: &str)
        requires
            old(self).inv(),
        ensures
            final(self).inv(),
            final(self).color() == old(self).color(),
            (final(self).column(), final(self).grid())
                == after_bytes(old(self).column(), old(self).grid(), old(self).color(), s.spec_bytes()),
    {
        let ghost col0 = self.column();
        let ghost g0 = self.grid();
        let ghost c0 = self.color();
        let bytes = s.as_bytes();
        let mut i: usize = 0;
        while i < bytes.len()
            invariant
                self.inv(),
                self.color() == c0,
                bytes@ == s.spec_bytes(),
                0 <= i <= bytes@.len(),
                (self.column(), self.grid()) == after_bytes(col0, g0, c0, bytes@.subrange(0, i as int)),
            decreases bytes@.len() - i,
        {
            let byte = bytes[i];
            if (0x20 <= byte && byte <= 0x7e) || byte == NEWLINE {
                self.write_byte(byte);
            } else {
                self.write_byte(UNPRINTABLE);
            }
            assert(bytes@.subrange(0, i + 1).drop_last() =~= bytes@.subrange(0, i as int));
            i += 1;
        }
        assert(bytes@.subrange(0, bytes@.len() as int) =~= bytes@);
    }

    /// Moves every row up by one, drops the top row, blanks the bottom row
    /// and puts the cursor at column 0.
    pub fn new_line(&mut self)
        requires
            old(self).inv(),
        ensures
            final(self).inv(),
            final(self).column() == 0,
            final(self).color() == old(self).color(),
            final(self).grid() == scrolled(old(self).grid(), old(self).color()),
    {
        let ghost g0 = self.grid();
        let ghost c0 = self.color();
        let mut row: usize = 1;
        while row < BUFFER_HEIGHT
            invariant
                1 <= row <= 25,
                self.color() == c0,
                well_shaped(g0),
                self.grid().len() == 25,
                forall|r: int| 0 <= r < row - 1 ==> #[trigger] self.grid()[r] == g0[r + 1],
                forall|r: int| row - 1 <= r < 25 ==> #[trigger] self.grid()[r] == g0[r],
            decreases 25 - row,
        {
            let mut col: usize = 0;
            while col < BUFFER_WIDTH
                invariant
                    1 <= row < 25,
                    0 <= col <= 80,
                    self.color() == c0,
                    well_shaped(g0),
                    well_shaped(self.grid()),
                    forall|r: int| 0 <= r < row - 1 ==> #[trigger] self.grid()[r] == g0[r + 1],
                    forall|r: int| row <= r < 25 ==> #[trigger] self.grid()[r] == g0[r],
                    forall|k: int| 0 <= k < col ==> #[trigger] self.grid()[row - 1][k] == g0[row as int][k],
                    forall|k: int| col <= k < 80 ==> #[trigger] self.grid()[row - 1][k] == g0[row - 1][k],
                decreases 80 - col,
            {
                let character = read_char(&*self.buffer, row, col);
                write_char(self.buffer, row - 1, col, character);
                col += 1;
            }
            assert(self.grid()[row - 1] =~= g0[row as int]);
            row += 1;
        }
        self.clear_row(BUFFER_HEIGHT - 1);
        self.column_position = 0;
        assert(self.grid() =~= scrolled(g0, c0));
    }

    /// Fills a row with blank cells in the writer's color.
    fn clear_row(&mut self, row: usize)
        requires
            row < BUFFER_HEIGHT,
            well_shaped(old(self).grid()),
        ensures
            final(self).column() == old(self).column(),
            final(self).color() == old(self).color(),
            final(self).grid() == old(self).grid().update(row as int, blank_row(old(self).color())),
    {
        let ghost g0 = self.grid();
        let space = ScreenChar { ascii_character: SPACE, color_code: self.color_code };
        let mut col: usize = 0;
        while col < BUFFER_WIDTH
            invariant
                row < 25,
                0 <= col <= 80,
                self.column() == old(self).column(),
                self.color() == old(self).color(),
                space == blank(self.color()),
                well_shaped(g0),
                well_shaped(self.grid()),
                forall|r: int| 0 <= r < 25 && r != row ==> #[trigger] self.grid()[r] == g0[r],
                forall|k: int| 0 <= k < col ==> #[trigger] self.grid()[row as int][k] == space,
                forall|k: int| col <= k < 80 ==> #[trigger] self.grid()[row as int][k] == g0[row as int][k],
            decreases 80 - col,
        {
            write_char(self.buffer, row, col, space);
            col += 1;
        }
        assert(self.grid()[row as int] =~= blank_row(self.color()));
        assert(self.grid() =~= g0.update(row as int, blank_row(self.color())));
    }
}

} // verus!

verus! {

#[verifier::external_type_specification]
#[verifier::external_body]
pub struct ExArguments<'a>(core::fmt::Arguments<'a>);

#[verifier::external_type_specification]
#[verifier::external_body]
pub struct ExFmtError(core::fmt::Error);

/// Relies on `core::fmt::Write::write_fmt` for `String`: appends the rendered
/// formatting arguments to a string, or returns the error that a formatting
/// impl reported. What the text is depends on the formatting impls of the
/// arguments, so nothing is stated of it.
#[verifier::external_body]
fn render(text: &mut String, args: core::fmt::Arguments) -> (r: Result<(), core::fmt::Error>) {
    core::fmt::Write::write_fmt(text, args)
}

/// Renders formatting arguments and writes the text through a writer. When
/// formatting fails the error is handed back and nothing is written.
pub fn _print(writer: &mut Writer, args: core::fmt::Arguments) -> (r: Result<(), core::fmt::Error>)
    requires
        old(writer).inv(),
    ensures
        final(writer).inv(),
        final(writer).color() == old(writer).color(),
        r is Ok ==> exists|text: Seq<u8>|
            (final(writer).column(), final(writer).grid())
                == after_bytes(old(writer).column(), old(writer).grid(), old(writer).color(), text),
        r is Err ==> final(writer).column() == old(writer).column()
            && final(writer).grid() == old(writer).grid(),
{
    let mut text = String::new();
    match render(&mut text, args) {
        Ok(()) => {
            writer.write_string(text.as_str());
            Ok(())
        },
        Err(e) => Err(e),
    }
}

} // verus!

verus! {

/// The cell a byte is written as.
pub open spec fn glyph(b: u8, color: ColorCode) -> ScreenChar {
    ScreenChar { ascii_character: b, color_code: color }
}

/// A printable byte written at a column inside the row lands in that column
/// of the bottom row, advances the column by one and leaves every other cell.
pub proof fn lemma_printable_byte(col: int, g: Grid, color: ColorCode, b: u8)
    requires
        0x20 <= b <= 0x7e,
        0 <= col < 80,
        well_shaped(g),
    ensures
        after_byte(col, g, color, b).0 == col + 1,
        after_byte(col, g, color, b).1[24][col] == glyph(b, color),
        well_shaped(after_byte(col, g, color, b).1),
        forall|r: int, k: int|
            0 <= r < 25 && 0 <= k < 80 && !(r == 24 && k == col)
                ==> #[trigger] after_byte(col, g, color, b).1[r][k] == g[r][k],
{
}

/// A byte that is neither printable nor a newline has the same effect as the
/// placeholder byte, written on its own or as a string.
pub proof fn lemma_unprintable_as_placeholder(col: int, g: Grid, color: ColorCode, b: u8)
    requires
        !is_shown(b),
    ensures
        after_byte(col, g, color, shown(b)) == after_byte(col, g, color, shown(UNPRINTABLE)),
        after_bytes(col, g, color, seq![b]) == after_bytes(col, g, color, seq![UNPRINTABLE]),
        after_bytes(col, g, color, seq![b]) == after_byte(col, g, color, UNPRINTABLE),
{
    assert(seq![b].drop_last() =~= Seq::<u8>::empty());
    assert(seq![UNPRINTABLE].drop_last() =~= Seq::<u8>::empty());
    assert(after_bytes(col, g, color, Seq::<u8>::empty()) == (col, g));
    assert(seq![b].last() == b);
    assert(seq![UNPRINTABLE].last() == UNPRINTABLE);
}

/// Whether every byte of a sequence is printable ASCII.
pub open spec fn all_printable(bytes: Seq<u8>) -> bool {
    forall|i: int| 0 <= i < bytes.len() ==> 0x20 <= #[trigger] bytes[i] <= 0x7e
}

/// The bottom row of a grid after its first `n` cells were replaced by the
/// glyphs of the first `n` bytes.
pub open spec fn filled(g: Grid, color: ColorCode, bytes: Seq<u8>, n: int) -> Grid {
    g.update(24, Seq::new(80, |k: int| if k < n { glyph(bytes[k], color) } else { g[24][k] }))
}

/// Writing printable bytes from column 0 fills the bottom row left to right.
proof fn lemma_fill_prefix(g: Grid, color: ColorCode, bytes: Seq<u8>, n: int)
    requires
        well_shaped(g),
        all_printable(bytes),
        0 <= n <= bytes.len(),
        n <= 80,
    ensures
        after_bytes(0, g, color, bytes.subrange(0, n)) == (n, filled(g, color, bytes, n)),
    decreases n,
{
    if n == 0 {
        assert(g.update(24, g[24]) =~= g);
        assert(filled(g, color, bytes, 0) =~= g) by {
            assert(Seq::new(80, |k: int| if k < 0 { glyph(bytes[k], color) } else { g[24][k] }) =~= g[24]);
        }
    } else {
        lemma_fill_prefix(g, color, bytes, n - 1);
        let s = bytes.subrange(0, n);
        assert(s.drop_last() =~= bytes.subrange(0, n - 1));
        assert(s.last() == bytes[n - 1]);
        assert(shown(bytes[n - 1]) == bytes[n - 1]);
        assert(filled(g, color, bytes, n)[24] =~= filled(g, color, bytes, n - 1)[24].update(n - 1, glyph(bytes[n - 1], color)));
        assert(filled(g, color, bytes, n) =~= placed(filled(g, color, bytes, n - 1), n - 1, glyph(bytes[n - 1], color)));
    }
}

/// Eighty printable bytes written on a fresh line fill the bottom row left to
/// right with no scroll; an eighty-first scrolls once and lands in column 0.
pub proof fn lemma_full_row(g: Grid, color: ColorCode, bytes: Seq<u8>, b: u8)
    requires
        well_shaped(g),
        bytes.len() == 80,
        all_printable(bytes),
        0x20 <= b <= 0x7e,
    ensures
        after_bytes(0, g, color, bytes)
            == (80int, g.update(24, Seq::new(80, |k: int| glyph(bytes[k], color)))),
        after_bytes(0, g, color, bytes.push(b))
            == (1int, placed(scrolled(after_bytes(0, g, color, bytes).1, color), 0, glyph(b, color))),
{
    lemma_fill_prefix(g, color, bytes, 80);
    assert(bytes.subrange(0, 80) =~= bytes);
    assert(filled(g, color, bytes, 80)[24] =~= Seq::new(80, |k: int| glyph(bytes[k], color)));
    assert(filled(g, color, bytes, 80) =~= g.update(24, Seq::new(80, |k: int| glyph(bytes[k], color))));
    assert(bytes.push(b).drop_last() =~= bytes);
}

/// A new line moves every row up by one, drops the top row, leaves a blank
/// bottom row and puts the cursor at column 0, whatever the column was.
pub proof fn lemma_new_line(col1: int, col2: int, g: Grid, color: ColorCode)
    requires
        well_shaped(g),
    ensures
        after_byte(col1, g, color, NEWLINE).0 == 0,
        forall|r: int| 0 <= r < 24 ==> #[trigger] after_byte(col1, g, color, NEWLINE).1[r] == g[r + 1],
        after_byte(col1, g, color, NEWLINE).1[24] == blank_row(color),
        after_byte(col1, g, color, NEWLINE).1.len() == 25,
        after_byte(col1, g, color, NEWLINE) == after_byte(col2, g, color, NEWLINE),
{
}

} // verus!

verus! {

/// The bytes of the text `Hello` followed by a newline.
pub open spec fn hello_line() -> Seq<u8> {
    seq![0x48u8, 0x65u8, 0x6cu8, 0x6cu8, 0x6fu8, 0x0au8]
}

/// Writing `Hello` and a newline at column 0 of a blank bottom row leaves the
/// five glyphs followed by blanks on the row above, a blank bottom row, and the
/// cursor at column 0.
pub proof fn lemma_hello_line(g: Grid, color: ColorCode)
    requires
        well_shaped(g),
        g[24] == blank_row(color),
    ensures
        "Hello\n".spec_bytes() == hello_line(),
        after_bytes(0, g, color, hello_line()).0 == 0,
        after_bytes(0, g, color, hello_line()).1[23] == seq![
            glyph(0x48, color),
            glyph(0x65, color),
            glyph(0x6c, color),
            glyph(0x6c, color),
            glyph(0x6f, color),
        ] + Seq::new(75, |k: int| blank(color)),
        after_bytes(0, g, color, hello_line()).1[24] == blank_row(color),
{
    lemma_hello_literal();
    let word = hello_line().drop_last();
    assert(word =~= seq![0x48u8, 0x65u8, 0x6cu8, 0x6cu8, 0x6fu8]);
    assert(all_printable(word));
    lemma_fill_prefix(g, color, word, 5);
    assert(word.subrange(0, 5) =~= word);
    assert(hello_line().last() == NEWLINE);
    let row = after_bytes(0, g, color, hello_line()).1[23];
    assert(row == filled(g, color, word, 5)[24]);
    assert(row =~= seq![
        glyph(0x48, color),
        glyph(0x65, color),
        glyph(0x6c, color),
        glyph(0x6c, color),
        glyph(0x6f, color),
    ] + Seq::new(75, |k: int| blank(color)));
}

/// The bytes of the string literal `"Hello\n"` are those of `hello_line`.
pub proof fn lemma_hello_literal()
    ensures
        "Hello\n".spec_bytes() == hello_line(),
{
    broadcast use vstd::string::is_ascii_spec_bytes;
    reveal_strlit("Hello\n");
    let chars = "Hello\n"@;
    assert(chars =~= seq!['H', 'e', 'l', 'l', 'o', '\n']);
    assert(vstd::string::is_ascii("Hello\n"));
    assert("Hello\n".spec_bytes() =~= Seq::new(6, |i: int| chars[i] as u8));
    assert("Hello\n".spec_bytes() =~= hello_line());
}

} // verus!
