//! The 8x8 ordered-dither (Bayer) pattern used to predict the preview's
//! dithered palette lookup: the rank of each cell of the tile. The threshold
//! a rank stands for, `(rank + 0.5) / 64 * 2 - 1`, is a float and is computed
//! by the caller.

use vstd::prelude::*;

verus! {

/// The rank contribution of one bit level: `(x, y)` bits `(0,0)`, `(1,0)`,
/// `(0,1)`, `(1,1)` give 0, 2, 3, 1.
pub open spec fn bayer_pair(x_bit: int, y_bit: int) -> int {
    if x_bit == 0 && y_bit == 0 {
        0
    } else if x_bit == 1 && y_bit == 0 {
        2
    } else if x_bit == 0 {
        3
    } else {
        1
    }
}

/// The rank of cell `(x, y)` of the tile (`0 <= x, y < 8`): one base-4 digit
/// per bit level, the lowest bits giving the lowest digit.
pub open spec fn bayer_rank(x: int, y: int) -> int {
    bayer_pair(x % 2, y % 2) + 4 * bayer_pair((x / 2) % 2, (y / 2) % 2) + 16 * bayer_pair(
        (x / 4) % 2,
        (y / 4) % 2,
    )
}

/// The rank of the tile cell under pixel cell `(cell_x, cell_y)` shifted by
/// `(offset_x, offset_y)`; the tile repeats every 8 cells in both directions,
/// also at negative coordinates.
pub fn ordered_dither_rank(cell_x: i32, cell_y: i32, offset_x: i32, offset_y: i32) -> (r: u32)
    requires
        i32::MIN <= cell_x + offset_x <= i32::MAX,
        i32::MIN <= cell_y + offset_y <= i32::MAX,
    ensures
        r == bayer_rank((cell_x + offset_x) % 8, (cell_y + offset_y) % 8),
        r < 64,
{
    let sx: i32 = cell_x + offset_x;
    let sy: i32 = cell_y + offset_y;
    let x = sx & 7;
    let y = sy & 7;
    assert(x == sx % 8 && 0 <= x < 8) by (bit_vector)
        requires
            x == sx & 7,
    ;
    assert(y == sy % 8 && 0 <= y < 8) by (bit_vector)
        requires
            y == sy & 7,
    ;
    let xu = x as u32;
    let yu = y as u32;
    let rank = pair_exec(xu % 2, yu % 2) + 4 * pair_exec((xu / 2) % 2, (yu / 2) % 2) + 16 * pair_exec(
        (xu / 4) % 2,
        (yu / 4) % 2,
    );
    assert(rank == bayer_rank(x as int, y as int));
    rank
}

fn pair_exec(x_bit: u32, y_bit: u32) -> (p: u32)
    requires
        x_bit < 2,
        y_bit < 2,
    ensures
        p == bayer_pair(x_bit as int, y_bit as int),
        p < 4,
{
    if x_bit == 0 && y_bit == 0 {
        0
    } else if x_bit == 1 && y_bit == 0 {
        2
    } else if x_bit == 0 {
        3
    } else {
        1
    }
}

/// The digit of a rank at one level tells that level's `x` and `y` bits.
proof fn lemma_pair_decodes(a: int, b: int, c: int, d: int)
    requires
        0 <= a < 2,
        0 <= b < 2,
        0 <= c < 2,
        0 <= d < 2,
        bayer_pair(a, b) == bayer_pair(c, d),
    ensures
        a == c,
        b == d,
{
}

/// Every rank from 0 to 63 belongs to exactly one cell of the 8x8 tile: the
/// ranks of two cells are equal only when the cells are, and all lie in
/// `0..64`.
pub proof fn lemma_bayer_ranks_are_a_permutation(x1: int, y1: int, x2: int, y2: int)
    requires
        0 <= x1 < 8,
        0 <= y1 < 8,
        0 <= x2 < 8,
        0 <= y2 < 8,
    ensures
        0 <= bayer_rank(x1, y1) < 64,
        bayer_rank(x1, y1) == bayer_rank(x2, y2) ==> x1 == x2 && y1 == y2,
{
    let p0 = bayer_pair(x1 % 2, y1 % 2);
    let p1 = bayer_pair((x1 / 2) % 2, (y1 / 2) % 2);
    let p2 = bayer_pair((x1 / 4) % 2, (y1 / 4) % 2);
    let q0 = bayer_pair(x2 % 2, y2 % 2);
    let q1 = bayer_pair((x2 / 2) % 2, (y2 / 2) % 2);
    let q2 = bayer_pair((x2 / 4) % 2, (y2 / 4) % 2);
    assert(0 <= p0 < 4 && 0 <= p1 < 4 && 0 <= p2 < 4);
    assert(0 <= q0 < 4 && 0 <= q1 < 4 && 0 <= q2 < 4);
    if bayer_rank(x1, y1) == bayer_rank(x2, y2) {
        assert(p0 == q0 && p1 == q1 && p2 == q2);
        lemma_pair_decodes(x1 % 2, y1 % 2, x2 % 2, y2 % 2);
        lemma_pair_decodes((x1 / 2) % 2, (y1 / 2) % 2, (x2 / 2) % 2, (y2 / 2) % 2);
        lemma_pair_decodes((x1 / 4) % 2, (y1 / 4) % 2, (x2 / 4) % 2, (y2 / 4) % 2);
        assert(x1 == x1 % 2 + 2 * ((x1 / 2) % 2) + 4 * ((x1 / 4) % 2));
        assert(x2 == x2 % 2 + 2 * ((x2 / 2) % 2) + 4 * ((x2 / 4) % 2));
        assert(y1 == y1 % 2 + 2 * ((y1 / 2) % 2) + 4 * ((y1 / 4) % 2));
        assert(y2 == y2 % 2 + 2 * ((y2 / 2) % 2) + 4 * ((y2 / 4) % 2));
    }
}

} // verus!
