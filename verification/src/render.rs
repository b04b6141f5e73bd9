//! Rendering: counters become symbols, rows become lines.

use crate::canvas::{is_rectangle, Canvas, Position};
use vstd::prelude::*;
use vstd::utf8::is_ascii_chars;

verus! {

/// The symbols, in the order of the counts they stand for.
pub const ALPHABET: &'static str = " .o+=*B0X@%&#/^";

/// The symbols as a sequence: the symbol at index `i` stands for a count of `i`.
pub open spec fn alphabet() -> Seq<char> {
    seq![' ', '.', 'o', '+', '=', '*', 'B', '0', 'X', '@', '%', '&', '#', '/', '^']
}

/// The symbol of a count: counts wrap around at the length of the alphabet.
pub open spec fn glyph(count: nat) -> char {
    alphabet()[(count % alphabet().len()) as int]
}

/// The character drawn for column `x`, row `y`: the start cell shows `S`
/// whatever its counter holds, every other cell the symbol of its counter.
pub open spec fn cell_char(grid: Seq<Seq<nat>>, start: (int, int), x: int, y: int) -> char {
    if (x, y) == start {
        'S'
    } else {
        glyph(grid[y][x])
    }
}

/// The first `n` characters of row `y`.
pub open spec fn cells_text(grid: Seq<Seq<nat>>, start: (int, int), y: int, n: int) -> Seq<char> {
    Seq::new(n as nat, |x: int| cell_char(grid, start, x, y))
}

/// Row `y` as a line: its cells from left to right, then a line feed.
pub open spec fn row_text(grid: Seq<Seq<nat>>, start: (int, int), y: int) -> Seq<char> {
    cells_text(grid, start, y, grid[y].len() as int).push('\n')
}

/// The first `n` rows as lines, from the top.
pub open spec fn rows_text(grid: Seq<Seq<nat>>, start: (int, int), n: int) -> Seq<char>
    decreases n,
{
    if n <= 0 {
        Seq::empty()
    } else {
        rows_text(grid, start, n - 1) + row_text(grid, start, n - 1)
    }
}

/// The whole grid as text.
pub open spec fn text_of(grid: Seq<Seq<nat>>, start: (int, int)) -> Seq<char> {
    rows_text(grid, start, grid.len() as int)
}

/// The place in the text of column `x`, row `y` of a grid that is `width` wide;
/// column `width` is the line feed of the row.
pub open spec fn text_index(width: int, x: int, y: int) -> int {
    y * (width + 1) + x
}

/// The first `n` rows of a rectangle take `n` lines of `width + 1` characters.
pub proof fn lemma_rows_text_len(grid: Seq<Seq<nat>>, start: (int, int), n: int)
    requires
        is_rectangle(grid),
        0 <= n <= grid.len(),
    ensures
        rows_text(grid, start, n).len() == n * (grid[0].len() + 1),
    decreases n,
{
    let w = grid[0].len() as int;
    if n > 0 {
        lemma_rows_text_len(grid, start, n - 1);
        assert(n * (w + 1) == (n - 1) * (w + 1) + (w + 1)) by (nonlinear_arith);
    } else {
        assert(n * (w + 1) == 0) by (nonlinear_arith)
            requires
                n == 0,
        ;
    }
}

/// Within the first `n` rows, the character of column `x`, row `y` stands at
/// `text_index`, and each row ends in a line feed.
pub proof fn lemma_rows_text_at(grid: Seq<Seq<nat>>, start: (int, int), n: int, x: int, y: int)
    requires
        is_rectangle(grid),
        0 <= y < n <= grid.len(),
        0 <= x <= grid[0].len(),
    ensures
        0 <= text_index(grid[0].len() as int, x, y) < rows_text(grid, start, n).len(),
        rows_text(grid, start, n)[text_index(grid[0].len() as int, x, y)] == if x
            == grid[0].len() {
            '\n'
        } else {
            cell_char(grid, start, x, y)
        },
    decreases n,
{
    let w = grid[0].len() as int;
    lemma_rows_text_len(grid, start, n);
    lemma_rows_text_len(grid, start, n - 1);
    assert(n * (w + 1) == (n - 1) * (w + 1) + (w + 1)) by (nonlinear_arith);
    if y < n - 1 {
        lemma_rows_text_at(grid, start, n - 1, x, y);
        assert((y + 1) * (w + 1) <= (n - 1) * (w + 1)) by (nonlinear_arith)
            requires
                y + 1 <= n - 1,
                w >= 0,
        ;
        assert((y + 1) * (w + 1) == y * (w + 1) + (w + 1)) by (nonlinear_arith);
    }
}

/// The text of a rectangle has one line of `width + 1` characters for each row.
pub proof fn lemma_text_len(grid: Seq<Seq<nat>>, start: (int, int))
    requires
        is_rectangle(grid),
    ensures
        text_of(grid, start).len() == grid.len() * (grid[0].len() + 1),
{
    lemma_rows_text_len(grid, start, grid.len() as int);
}

/// The text shows `S` at the start cell, whatever the counters hold.
pub proof fn lemma_text_marks_start(grid: Seq<Seq<nat>>, start: (int, int))
    requires
        is_rectangle(grid),
        0 <= start.0 < grid[0].len(),
        0 <= start.1 < grid.len(),
    ensures
        0 <= text_index(grid[0].len() as int, start.0, start.1) < text_of(grid, start).len(),
        text_of(grid, start)[text_index(grid[0].len() as int, start.0, start.1)] == 'S',
{
    lemma_rows_text_at(grid, start, grid.len() as int, start.0, start.1);
}

/// The alphabet has fifteen symbols, all of them ASCII characters.
pub proof fn lemma_alphabet_is_ascii()
    ensures
        alphabet().len() == 15,
        is_ascii_chars(alphabet()),
{
}

/// The first `n` rows of a rectangle are drawn in ASCII characters alone.
pub proof fn lemma_rows_text_is_ascii(grid: Seq<Seq<nat>>, start: (int, int), n: int)
    requires
        is_rectangle(grid),
        0 <= n <= grid.len(),
    ensures
        is_ascii_chars(rows_text(grid, start, n)),
    decreases n,
{
    if n > 0 {
        lemma_rows_text_is_ascii(grid, start, n - 1);
        lemma_alphabet_is_ascii();
        assert(is_ascii_chars(row_text(grid, start, n - 1)));
    }
}

/// The text of a rectangle is plain ASCII: it takes one byte for each character.
pub proof fn lemma_text_is_ascii(grid: Seq<Seq<nat>>, start: (int, int))
    requires
        is_rectangle(grid),
    ensures
        is_ascii_chars(text_of(grid, start)),
{
    lemma_rows_text_is_ascii(grid, start, grid.len() as int);
}

/// The symbol that stands for a count, as a string of one character.
pub fn symbol(count: u128) -> (s: &'static str)
    ensures
        s@ == seq![glyph(count as nat)],
{
    proof {
        reveal_strlit(" .o+=*B0X@%&#/^");
    }
    let i: usize = (count % 15) as usize;
    ALPHABET.substring_ascii(i, i + 1)
}

/// Draws the canvas: row by row from the top, each row from the left and closed
/// by a line feed. The cell at `start` is drawn as `S`; a `start` off the canvas
/// marks no cell.
pub fn render(canvas: &Canvas, start: Position) -> (text: String)
    ensures
        text@ == text_of(canvas@, start@),
        text@.len() == canvas.spec_height() * (canvas.spec_width() + 1),
        is_ascii_chars(text@),
{
    let width: usize = canvas.width();
    let height: usize = canvas.height();
    let mut text = String::new();
    let mut y: usize = 0;
    while y < height
        invariant
            is_rectangle(canvas@),
            width == canvas.spec_width(),
            height == canvas.spec_height(),
            y <= height,
            text@ == rows_text(canvas@, start@, y as int),
        decreases height - y,
    {
        let ghost above = text@;
        let mut x: usize = 0;
        while x < width
            invariant
                is_rectangle(canvas@),
                width == canvas.spec_width(),
                height == canvas.spec_height(),
                y < height,
                x <= width,
                text@ == above + cells_text(canvas@, start@, y as int, x as int),
            decreases width - x,
        {
            if x == start.x && y == start.y {
                proof {
                    reveal_strlit("S");
                }
                text.append("S");
            } else {
                text.append(symbol(canvas.count(x, y)));
            }
            x = x + 1;
        }
        proof {
            reveal_strlit("\n");
        }
        text.append("\n");
        y = y + 1;
    }
    proof {
        lemma_text_len(canvas@, start@);
        lemma_text_is_ascii(canvas@, start@);
    }
    text
}

} // verus!
