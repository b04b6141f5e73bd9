//! The walk: a digest read as two-bit moves that carry a cursor over the canvas.

use crate::canvas::{
    blank, bumped, grid_total, lemma_grid_total_blank, lemma_grid_total_bumped, Canvas, Position,
};
use vstd::prelude::*;

verus! {

/// The weight of the `k`-th pair of bits in a byte, the lowest pair being pair 0.
pub open spec fn pair_weight(k: int) -> int {
    if k <= 0 {
        1
    } else if k == 1 {
        4
    } else if k == 2 {
        16
    } else {
        64
    }
}

/// The `k`-th two-bit code of a byte, for `k` from 0 (lowest bits) to 3 (highest bits).
pub open spec fn code_at(byte: u8, k: int) -> int {
    (byte as int / pair_weight(k)) % 4
}

/// The codes of a digest in the order they are walked: byte by byte, and
/// within a byte from the lowest pair of bits to the highest.
pub open spec fn codes_of(digest: Seq<u8>) -> Seq<int> {
    Seq::new(4 * digest.len(), |j: int| code_at(digest[j / 4], j % 4))
}

/// A coordinate pushed back into `0 ..= len - 1`.
pub open spec fn clamped(v: int, len: int) -> int {
    if v < 0 {
        0
    } else if v > len - 1 {
        len - 1
    } else {
        v
    }
}

/// The step along the x axis that a code asks for: right if bit 0 is set, else left.
pub open spec fn dx(code: int) -> int {
    if code % 2 == 1 {
        1
    } else {
        -1
    }
}

/// The step along the y axis that a code asks for: down if bit 1 is set, else up.
pub open spec fn dy(code: int) -> int {
    if code / 2 % 2 == 1 {
        1
    } else {
        -1
    }
}

/// The cell where the walk begins.
pub open spec fn start_of(width: int, height: int) -> (int, int) {
    ((width - 1) / 2, (height - 1) / 2)
}

/// One move: each coordinate goes one step as the code says and is then
/// clamped on its own, so the cursor sticks to an edge instead of leaving.
pub open spec fn moved(p: (int, int), code: int, width: int, height: int) -> (int, int) {
    (clamped(p.0 + dx(code), width), clamped(p.1 + dy(code), height))
}

/// Where the cursor stands after the first `n` moves.
pub open spec fn cursor_after(codes: Seq<int>, n: int, width: int, height: int) -> (int, int)
    decreases n,
{
    if n <= 0 {
        start_of(width, height)
    } else {
        moved(cursor_after(codes, n - 1, width, height), codes[n - 1], width, height)
    }
}

/// How often the cursor has landed on column `x`, row `y` in the first `n` moves.
/// The start cell counts only when a move lands on it.
pub open spec fn visits(codes: Seq<int>, n: int, width: int, height: int, x: int, y: int) -> nat
    decreases n,
{
    if n <= 0 {
        0
    } else {
        let before = visits(codes, n - 1, width, height, x, y);
        if cursor_after(codes, n, width, height) == (x, y) {
            before + 1
        } else {
            before
        }
    }
}

/// The counters after the first `n` moves: each cell holds its number of visits.
pub open spec fn grid_after(codes: Seq<int>, n: int, width: int, height: int) -> Seq<Seq<nat>> {
    Seq::new(
        height as nat,
        |y: int| Seq::new(width as nat, |x: int| visits(codes, n, width, height, x, y)),
    )
}

/// The counters once the whole digest has been walked.
pub open spec fn walked(digest: Seq<u8>, width: int, height: int) -> Seq<Seq<nat>> {
    grid_after(codes_of(digest), codes_of(digest).len() as int, width, height)
}

/// The cursor never leaves the canvas, whatever the codes are.
pub proof fn lemma_cursor_in_bounds(codes: Seq<int>, n: int, width: int, height: int)
    requires
        width >= 1,
        height >= 1,
    ensures
        0 <= cursor_after(codes, n, width, height).0 < width,
        0 <= cursor_after(codes, n, width, height).1 < height,
    decreases n,
{
    if n > 0 {
        lemma_cursor_in_bounds(codes, n - 1, width, height);
    }
}

/// Throughout the walk of any digest the cursor stays on the canvas.
pub proof fn lemma_cursor_stays_on_canvas(digest: Seq<u8>, n: int, width: int, height: int)
    requires
        width >= 1,
        height >= 1,
    ensures
        0 <= cursor_after(codes_of(digest), n, width, height).0 <= width - 1,
        0 <= cursor_after(codes_of(digest), n, width, height).1 <= height - 1,
{
    lemma_cursor_in_bounds(codes_of(digest), n, width, height);
}

/// No cell is visited more often than there were moves.
pub proof fn lemma_visits_at_most_moves(
    codes: Seq<int>,
    n: int,
    width: int,
    height: int,
    x: int,
    y: int,
)
    requires
        n >= 0,
    ensures
        visits(codes, n, width, height, x, y) <= n,
    decreases n,
{
    if n > 0 {
        lemma_visits_at_most_moves(codes, n - 1, width, height, x, y);
    }
}

/// Before the first move every counter is zero.
pub proof fn lemma_grid_at_start(codes: Seq<int>, width: int, height: int)
    requires
        width >= 1,
        height >= 1,
    ensures
        grid_after(codes, 0, width, height) == blank(width, height),
{
    assert(grid_after(codes, 0, width, height) =~~= blank(width, height));
}

/// A move raises the counter of the cell it lands on, and no other.
pub proof fn lemma_grid_after_move(codes: Seq<int>, n: int, width: int, height: int)
    requires
        width >= 1,
        height >= 1,
        n >= 0,
    ensures
        grid_after(codes, n + 1, width, height) == bumped(
            grid_after(codes, n, width, height),
            cursor_after(codes, n + 1, width, height).0,
            cursor_after(codes, n + 1, width, height).1,
        ),
{
    lemma_cursor_in_bounds(codes, n + 1, width, height);
    let p = cursor_after(codes, n + 1, width, height);
    assert(grid_after(codes, n + 1, width, height) =~~= bumped(
        grid_after(codes, n, width, height),
        p.0,
        p.1,
    ));
}

/// Every move raises exactly one counter: after `n` moves the counters add up to `n`.
pub proof fn lemma_grid_total_after(codes: Seq<int>, n: int, width: int, height: int)
    requires
        width >= 1,
        height >= 1,
        n >= 0,
    ensures
        grid_total(grid_after(codes, n, width, height)) == n,
    decreases n,
{
    if n == 0 {
        lemma_grid_at_start(codes, width, height);
        lemma_grid_total_blank(width, height);
    } else {
        lemma_grid_total_after(codes, n - 1, width, height);
        lemma_grid_after_move(codes, n - 1, width, height);
        lemma_cursor_in_bounds(codes, n, width, height);
        let p = cursor_after(codes, n, width, height);
        lemma_grid_total_bumped(grid_after(codes, n - 1, width, height), p.0, p.1);
    }
}

/// Walking a digest makes four moves for each of its bytes, and every move
/// is counted once.
pub proof fn lemma_walk_counts_every_move(digest: Seq<u8>, width: int, height: int)
    requires
        width >= 1,
        height >= 1,
    ensures
        codes_of(digest).len() == 4 * digest.len(),
        grid_total(walked(digest, width, height)) == 4 * digest.len(),
{
    lemma_grid_total_after(codes_of(digest), codes_of(digest).len() as int, width, height);
}

/// The cell where the walk begins: the middle of the canvas, rounded towards the
/// top left corner.
pub fn start_position(width: usize, height: usize) -> (start: Position)
    requires
        width >= 1,
        height >= 1,
    ensures
        start@ == start_of(width as int, height as int),
        start.x < width,
        start.y < height,
{
    Position { x: (width - 1) / 2, y: (height - 1) / 2 }
}

/// The `k`-th two-bit code of `byte`, counted from the lowest bits.
pub fn move_code(byte: u8, k: u8) -> (code: u8)
    requires
        k < 4,
    ensures
        code == code_at(byte, k as int),
        code < 4,
{
    let code: u8 = (byte >> (2 * k)) & 3;
    proof {
        assert((byte >> 0u8) & 3 == (byte / 1) % 4) by (bit_vector);
        assert((byte >> 2u8) & 3 == (byte / 4) % 4) by (bit_vector);
        assert((byte >> 4u8) & 3 == (byte / 16) % 4) by (bit_vector);
        assert((byte >> 6u8) & 3 == (byte / 64) % 4) by (bit_vector);
    }
    code
}

/// One step along an axis of length `len`, forward or backward, clamped to the axis.
fn step_axis(v: usize, forward: bool, len: usize) -> (r: usize)
    requires
        len >= 1,
    ensures
        r == clamped(
            v + if forward {
                1int
            } else {
                -1int
            },
            len as int,
        ),
        r < len,
{
    if forward {
        if v >= len - 1 {
            len - 1
        } else {
            v + 1
        }
    } else if v == 0 {
        0
    } else if v - 1 > len - 1 {
        len - 1
    } else {
        v - 1
    }
}

/// Moves the cursor as `code` says: bit 0 chooses left (0) or right (1), bit 1
/// chooses up (0) or down (1); higher bits are not read. At an edge the blocked
/// coordinate stays where it is while the other one still moves.
pub fn step(p: Position, code: u8, width: usize, height: usize) -> (next: Position)
    requires
        width >= 1,
        height >= 1,
    ensures
        next@ == moved(p@, code as int, width as int, height as int),
        next.x < width,
        next.y < height,
{
    Position {
        x: step_axis(p.x, code % 2 == 1, width),
        y: step_axis(p.y, code / 2 % 2 == 1, height),
    }
}

/// Walks the digest over a fresh canvas, starting in the middle, and returns the
/// canvas with the start cell. Every code moves the cursor once and raises the
/// counter of the cell it lands on.
pub fn walk(digest: &[u8], width: usize, height: usize) -> (out: (Canvas, Position))
    requires
        width >= 1,
        height >= 1,
    ensures
        out.0@ == walked(digest@, width as int, height as int),
        out.0.spec_width() == width,
        out.0.spec_height() == height,
        out.1@ == start_of(width as int, height as int),
{
    let start = start_position(width, height);
    let mut canvas = Canvas::new(width, height);
    let mut cursor = start;
    let ghost codes = codes_of(digest@);
    proof {
        lemma_grid_at_start(codes, width as int, height as int);
    }
    let mut i: usize = 0;
    while i < digest.len()
        invariant
            width >= 1,
            height >= 1,
            i <= digest@.len(),
            codes == codes_of(digest@),
            cursor@ == cursor_after(codes, 4 * i, width as int, height as int),
            canvas@ == grid_after(codes, 4 * i, width as int, height as int),
        decreases digest@.len() - i,
    {
        let byte: u8 = digest[i];
        let mut k: u8 = 0;
        while k < 4
            invariant
                width >= 1,
                height >= 1,
                k <= 4,
                i < digest@.len(),
                byte == digest@[i as int],
                codes == codes_of(digest@),
                cursor@ == cursor_after(codes, 4 * i + k, width as int, height as int),
                canvas@ == grid_after(codes, 4 * i + k, width as int, height as int),
            decreases 4 - k,
        {
            let code: u8 = move_code(byte, k);
            cursor = step(cursor, code, width, height);
            proof {
                let n: int = 4 * i + k;
                lemma_grid_after_move(codes, n, width as int, height as int);
                lemma_visits_at_most_moves(
                    codes,
                    n,
                    width as int,
                    height as int,
                    cursor.x as int,
                    cursor.y as int,
                );
            }
            canvas.visit(cursor.x, cursor.y);
            k = k + 1;
        }
        i = i + 1;
    }
    (canvas, start)
}

} // verus!
