use vstd::prelude::*;
use volatile::Volatile;
use crate::color::ColorCode;

verus! {

/// Number of rows of the text grid.
pub const BUFFER_HEIGHT: usize = 25;

/// Number of columns of the text grid.
pub const BUFFER_WIDTH: usize = 80;

/// One cell of the grid: a character byte and its attribute byte.
#[derive(Clone, Copy, Debug, PartialEq, Eq, Structural)]
pub struct ScreenChar {
    pub ascii_character: u8,
    pub color_code: ColorCode,
}

#[verifier::external_type_specification]
#[verifier::external_body]
#[verifier::reject_recursive_types(T)]
pub struct ExVolatile<T: Copy>(Volatile<T>);

/// The grid of cells, each a 16-bit word reached only through volatile
/// reads and writes. A word holds the character in its low byte and the
/// attribute in its high byte, so in little-endian memory the character
/// comes first, as the display hardware expects.
pub type Buffer = [[Volatile<u16>; 80]; 25];

/// What a volatile word of the grid currently holds.
pub uninterp spec fn word_held(v: Volatile<u16>) -> u16;

/// The word that stores a cell.
pub open spec fn encode(c: ScreenChar) -> u16 {
    (c.color_code.0 as int * 256 + c.ascii_character as int) as u16
}

/// The cell that a word stores.
pub open spec fn decode(w: u16) -> ScreenChar {
    ScreenChar { ascii_character: (w % 256) as u8, color_code: ColorCode((w / 256) as u8) }
}

/// The grid as rows of cells.
pub open spec fn cells(b: &Buffer) -> Seq<Seq<ScreenChar>> {
    Seq::new(25, |r: int| Seq::new(80, |c: int| decode(word_held(b@[r]@[c]))))
}

/// Relies on `volatile::Volatile::read`: one volatile load of the word,
/// which yields the value the word holds.
#[verifier::external_body]
fn load(b: &Buffer, row: usize, col: usize) -> (r: u16)
    requires
        row < 25,
        col < 80,
    ensures
        r == word_held(b@[row as int]@[col as int]),
{
    b[row][col].read()
}

/// Relies on `volatile::Volatile::write`: one volatile store into the word,
/// after which it holds the value stored and no other word changes.
#[verifier::external_body]
fn store(b: &mut Buffer, row: usize, col: usize, w: u16)
    requires
        row < 25,
        col < 80,
    ensures
        word_held(final(b)@[row as int]@[col as int]) == w,
        forall|r: int, k: int|
            0 <= r < 25 && 0 <= k < 80 && !(r == row && k == col)
                ==> final(b)@[r]@[k] == old(b)@[r]@[k],
{
    b[row][col].write(w)
}

/// Decoding a stored cell gives the cell back.
pub proof fn lemma_decode_encode(c: ScreenChar)
    ensures
        decode(encode(c)) == c,
{
    let a = c.ascii_character as int;
    let k = c.color_code.0 as int;
    assert(0 <= k * 256 + a <= 65535) by (nonlinear_arith)
        requires
            0 <= a < 256,
            0 <= k < 256,
    ;
    assert((k * 256 + a) % 256 == a && (k * 256 + a) / 256 == k) by (nonlinear_arith)
        requires
            0 <= a < 256,
            0 <= k < 256,
    ;
}

/// Reads the cell at a row and column.
pub fn read_char(b: &Buffer, row: usize, col: usize) -> (r: ScreenChar)
    requires
        row < BUFFER_HEIGHT,
        col < BUFFER_WIDTH,
    ensures
        r == cells(b)[row as int][col as int],
{
    let w = load(b, row, col);
    ScreenChar { ascii_character: (w % 256) as u8, color_code: ColorCode((w / 256) as u8) }
}

/// Writes a cell at a row and column; every other cell keeps its value.
pub fn write_char(b: &mut Buffer, row: usize, col: usize, c: ScreenChar)
    requires
        row < BUFFER_HEIGHT,
        col < BUFFER_WIDTH,
    ensures
        cells(final(b)) == cells(old(b)).update(row as int, cells(old(b))[row as int].update(col as int, c)),
{
    proof {
        lemma_decode_encode(c);
    }
    let w: u16 = (c.color_code.0 as u16) * 256 + c.ascii_character as u16;
    store(b, row, col, w);
    let ghost want = cells(old(b)).update(row as int, cells(old(b))[row as int].update(col as int, c));
    assert forall|r: int| 0 <= r < 25 implies #[trigger] cells(final(b))[r] =~= want[r] by {
        assert forall|k: int| 0 <= k < 80 implies cells(final(b))[r][k] == want[r][k] by {
            if r != row || k != col {
                assert(final(b)@[r]@[k] == old(b)@[r]@[k]);
            }
        }
    }
    assert(cells(final(b)) =~= want);
}

} // verus!
