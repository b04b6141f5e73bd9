//! The canvas: a rectangle of visit counters, and positions on it.

use vstd::prelude::*;

verus! {

/// A cell of the canvas, by column `x` and row `y`.
#[derive(Clone, Copy, Debug, PartialEq, Eq, Structural)]
pub struct Position {
    pub x: usize,
    pub y: usize,
}

impl View for Position {
    type V = (int, int);

    /// The position as a pair of mathematical integers, column first.
    open spec fn view(&self) -> (int, int) {
        (self.x as int, self.y as int)
    }
}

/// A grid is a sequence of rows; `grid[y][x]` is the counter of column `x` in row `y`.
/// It is rectangular when it has at least one row, every row has the same
/// length, and that length is at least one.
pub open spec fn is_rectangle(grid: Seq<Seq<nat>>) -> bool {
    &&& grid.len() >= 1
    &&& grid[0].len() >= 1
    &&& forall|y: int| 0 <= y < grid.len() ==> (#[trigger] grid[y]).len() == grid[0].len()
}

/// The rectangle of the given size with every counter at zero.
pub open spec fn blank(width: int, height: int) -> Seq<Seq<nat>> {
    Seq::new(height as nat, |y: int| Seq::new(width as nat, |x: int| 0nat))
}

/// The grid with the counter at column `x`, row `y` raised by one.
pub open spec fn bumped(grid: Seq<Seq<nat>>, x: int, y: int) -> Seq<Seq<nat>> {
    grid.update(y, grid[y].update(x, grid[y][x] + 1))
}

/// The sum of the counters of a row.
pub open spec fn row_total(row: Seq<nat>) -> nat
    decreases row.len(),
{
    if row.len() == 0 {
        0
    } else {
        row_total(row.drop_last()) + row.last()
    }
}

/// The sum of all counters of a grid.
pub open spec fn grid_total(grid: Seq<Seq<nat>>) -> nat
    decreases grid.len(),
{
    if grid.len() == 0 {
        0
    } else {
        grid_total(grid.drop_last()) + row_total(grid.last())
    }
}

/// Raising one counter of a row by `by` raises the sum of the row by `by`.
pub proof fn lemma_row_total_update(row: Seq<nat>, x: int, by: nat)
    requires
        0 <= x < row.len(),
    ensures
        row_total(row.update(x, row[x] + by)) == row_total(row) + by,
    decreases row.len(),
{
    let raised = row.update(x, row[x] + by);
    if x == row.len() - 1 {
        assert(raised.drop_last() =~= row.drop_last());
    } else {
        lemma_row_total_update(row.drop_last(), x, by);
        assert(raised.drop_last() =~= row.drop_last().update(x, row[x] + by));
    }
}

/// Raising one counter of a grid by one raises the sum of the grid by one.
pub proof fn lemma_grid_total_bumped(grid: Seq<Seq<nat>>, x: int, y: int)
    requires
        0 <= y < grid.len(),
        0 <= x < grid[y].len(),
    ensures
        grid_total(bumped(grid, x, y)) == grid_total(grid) + 1,
    decreases grid.len(),
{
    let raised = bumped(grid, x, y);
    if y == grid.len() - 1 {
        assert(raised.drop_last() =~= grid.drop_last());
        lemma_row_total_update(grid[y], x, 1);
    } else {
        lemma_grid_total_bumped(grid.drop_last(), x, y);
        assert(raised.drop_last() =~= bumped(grid.drop_last(), x, y));
    }
}

/// The counters of a blank grid add up to zero.
pub proof fn lemma_grid_total_blank(width: int, height: int)
    requires
        width >= 0,
        height >= 0,
    ensures
        grid_total(blank(width, height)) == 0,
    decreases height,
{
    if height > 0 {
        lemma_grid_total_blank(width, height - 1);
        assert(blank(width, height).drop_last() =~= blank(width, height - 1));
        lemma_row_total_zeros(width);
    }
}

/// A row of zeros adds up to zero.
proof fn lemma_row_total_zeros(width: int)
    requires
        width >= 0,
    ensures
        row_total(Seq::new(width as nat, |x: int| 0nat)) == 0,
    decreases width,
{
    if width > 0 {
        lemma_row_total_zeros(width - 1);
        assert(Seq::new(width as nat, |x: int| 0nat).drop_last() =~= Seq::new(
            (width - 1) as nat,
            |x: int| 0nat,
        ));
    }
}

/// A rectangle of visit counters, `height` rows of `width` columns, with at
/// least one cell. A counter has 128 bits, more than four visits for every byte
/// of the longest slice can fill.
#[derive(Debug)]
pub struct Canvas {
    rows: Vec<Vec<u128>>,
}

impl View for Canvas {
    type V = Seq<Seq<nat>>;

    /// The counters as natural numbers, row by row.
    closed spec fn view(&self) -> Seq<Seq<nat>> {
        Seq::new(
            self.rows@.len(),
            |y: int| Seq::new(self.rows@[y]@.len(), |x: int| self.rows@[y]@[x] as nat),
        )
    }
}

/// Adds one to `rows[y][x]` and leaves every other counter, and the shape, as it was.
fn raise(rows: &mut Vec<Vec<u128>>, x: usize, y: usize)
    requires
        y < old(rows)@.len(),
        x < old(rows)@[y as int]@.len(),
        old(rows)@[y as int]@[x as int] < u128::MAX,
    ensures
        final(rows)@.len() == old(rows)@.len(),
        final(rows)@[y as int]@ == old(rows)@[y as int]@.update(
            x as int,
            (old(rows)@[y as int]@[x as int] + 1) as u128,
        ),
        forall|j: int|
            0 <= j < old(rows)@.len() && j != y ==> #[trigger] final(rows)@[j] == old(rows)@[j],
    no_unwind
{
    rows[y][x] += 1;
}

impl Canvas {
    #[verifier::type_invariant]
    spec fn rectangular(self) -> bool {
        &&& self.rows@.len() >= 1
        &&& self.rows@[0]@.len() >= 1
        &&& forall|y: int|
            0 <= y < self.rows@.len() ==> (#[trigger] self.rows@[y])@.len() == self.rows@[0]@.len()
    }

    /// The number of columns.
    pub open spec fn spec_width(&self) -> nat {
        self@[0].len()
    }

    /// The number of rows.
    pub open spec fn spec_height(&self) -> nat {
        self@.len()
    }

    /// A canvas of the given size with every counter at zero.
    pub fn new(width: usize, height: usize) -> (canvas: Canvas)
        requires
            width >= 1,
            height >= 1,
        ensures
            canvas@ == blank(width as int, height as int),
            is_rectangle(canvas@),
    {
        let mut rows: Vec<Vec<u128>> = Vec::new();
        let mut y: usize = 0;
        while y < height
            invariant
                y <= height,
                width >= 1,
                rows@.len() == y,
                forall|j: int| 0 <= j < y ==> (#[trigger] rows@[j])@.len() == width,
                forall|j: int, i: int|
                    0 <= j < y && 0 <= i < width ==> (#[trigger] rows@[j]@[i]) == 0,
            decreases height - y,
        {
            let mut row: Vec<u128> = Vec::new();
            let mut x: usize = 0;
            while x < width
                invariant
                    x <= width,
                    row@.len() == x,
                    forall|i: int| 0 <= i < x ==> (#[trigger] row@[i]) == 0,
                decreases width - x,
            {
                row.push(0u128);
                x = x + 1;
            }
            rows.push(row);
            y = y + 1;
        }
        let canvas = Canvas { rows };
        assert(canvas@ =~~= blank(width as int, height as int));
        canvas
    }

    /// The number of columns.
    pub fn width(&self) -> (w: usize)
        ensures
            w == self.spec_width(),
            is_rectangle(self@),
    {
        proof {
            use_type_invariant(self);
        }
        self.rows[0].len()
    }

    /// The number of rows.
    pub fn height(&self) -> (h: usize)
        ensures
            h == self.spec_height(),
            is_rectangle(self@),
    {
        proof {
            use_type_invariant(self);
        }
        self.rows.len()
    }

    /// How often the cell at column `x`, row `y` was visited.
    pub fn count(&self, x: usize, y: usize) -> (n: u128)
        requires
            y < self.spec_height(),
            x < self.spec_width(),
        ensures
            n == self@[y as int][x as int],
    {
        proof {
            use_type_invariant(self);
        }
        self.rows[y][x]
    }

    /// Records one more visit of the cell at column `x`, row `y`.
    pub fn visit(&mut self, x: usize, y: usize)
        requires
            y < old(self).spec_height(),
            x < old(self).spec_width(),
            old(self)@[y as int][x as int] < u128::MAX,
        ensures
            final(self)@ == bumped(old(self)@, x as int, y as int),
            is_rectangle(final(self)@),
    {
        proof {
            use_type_invariant(&*self);
        }
        raise(&mut self.rows, x, y);
        assert(self@ =~~= bumped(old(self)@, x as int, y as int));
    }
}

} // verus!
