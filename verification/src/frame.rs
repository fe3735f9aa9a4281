//! The colour planes of a video frame.
//!
//! A frame is a square of `side` by `side` pixels, row by row. In the 4:2:0
//! layout the two colour differences are kept once for every block of two by
//! two pixels: the sum of a quarter of each of the four.

use vstd::prelude::*;

verus! {

/// The side of a frame, in pixels. It is even.
pub const SIZE: usize = 1024;

/// Frames in a second.
pub const FPS: usize = 24;

/// The value of the block at column `qx` and row `qy` of blocks: a quarter
/// of each of its four pixels, added up.
pub open spec fn quartered(full: Seq<u8>, side: int, qx: int, qy: int) -> int {
    full[2 * qy * side + 2 * qx] / 4 + full[2 * qy * side + 2 * qx + 1] / 4 + full[(2 * qy + 1)
        * side + 2 * qx] / 4 + full[(2 * qy + 1) * side + 2 * qx + 1] / 4
}

/// A plane of `side` by `side` values is one of blocks of two by two.
pub open spec fn blocked(len: nat, side: int) -> bool {
    side % 2 == 0 && len == side * side
}

/// The plane with one value for every block of two by two of `full`, row
/// by row; none if `full` is no square of an even `side`.
pub fn subsample(full: &Vec<u8>, side: usize) -> (half: Option<Vec<u8>>)
    ensures
        half is Some <==> blocked(full@.len(), side as int),
        half matches Some(h) ==> {
            &&& h@.len() == (side / 2) * (side / 2)
            &&& forall|qx: int, qy: int|
                0 <= qx < side / 2 && 0 <= qy < side / 2 ==> #[trigger] h@[qy * (side / 2) + qx]
                    == quartered(full@, side as int, qx, qy)
        },
{
    if side % 2 != 0 {
        return None;
    }
    let n: usize = full.len();
    if side == 0 {
        if n != 0 {
            return None;
        }
        assert(0 * 0 == 0);
        return Some(Vec::new());
    }
    if n / side != side || n % side != 0 {
        proof {
            if n == side * side {
                lemma_square_parts(n as int, side as int);
            }
        }
        return None;
    }
    proof {
        lemma_parts_square(n as int, side as int);
    }
    let blocks: usize = side / 2;
    let mut half: Vec<u8> = Vec::new();
    let mut qy: usize = 0;
    while qy < blocks
        invariant
            qy <= blocks,
            side == 2 * blocks,
            n == side * side,
            n == full@.len(),
            half@.len() == qy * blocks,
            forall|x: int, y: int|
                0 <= x < blocks && 0 <= y < qy ==> #[trigger] half@[y * blocks + x] == quartered(
                    full@,
                    side as int,
                    x,
                    y,
                ),
        decreases blocks - qy,
    {
        let mut qx: usize = 0;
        while qx < blocks
            invariant
                qx <= blocks,
                qy < blocks,
                side == 2 * blocks,
                n == side * side,
                n == full@.len(),
                half@.len() == qy * blocks + qx,
                forall|x: int, y: int|
                    0 <= x < blocks && 0 <= y < qy ==> #[trigger] half@[y * blocks + x]
                        == quartered(full@, side as int, x, y),
                forall|x: int|
                    0 <= x < qx ==> #[trigger] half@[qy * blocks + x] == quartered(
                        full@,
                        side as int,
                        x,
                        qy as int,
                    ),
            decreases blocks - qx,
        {
            proof {
                lemma_within(side as int, 2 * qx as int + 1, 2 * qy as int + 1);
                lemma_within(side as int, 2 * qx as int, 2 * qy as int);
                assert((2 * qy + 1) * side == 2 * qy * side + side) by (nonlinear_arith);
            }
            let upper: usize = 2 * qy * side + 2 * qx;
            let lower: usize = upper + side;
            let sum: u8 = full[upper] / 4 + full[upper + 1] / 4 + full[lower] / 4 + full[lower
                + 1] / 4;
            let ghost before = half@;
            half.push(sum);
            proof {
                lemma_cells_apart(blocks as int, qx as int, qy as int);
                assert forall|x: int, y: int| 0 <= x < blocks && 0 <= y < qy implies #[trigger] half@[y
                    * blocks + x] == quartered(full@, side as int, x, y) by {
                    lemma_row_before(blocks as int, x, y, qy as int);
                    assert(half@[y * blocks + x] == before[y * blocks + x]);
                }
            }
            qx = qx + 1;
        }
        proof {
            assert(qy * blocks + blocks == (qy + 1) * blocks) by (nonlinear_arith);
        }
        qy = qy + 1;
    }
    Some(half)
}

/// A square has its side for quotient and nothing for remainder.
proof fn lemma_square_parts(n: int, side: int)
    by (nonlinear_arith)
    requires
        side > 0,
        n == side * side,
    ensures
        n / side == side,
        n % side == 0,
{
}

/// What has its divisor for quotient and nothing for remainder is a square.
proof fn lemma_parts_square(n: int, side: int)
    by (nonlinear_arith)
    requires
        side > 0,
        n >= 0,
        n / side == side,
        n % side == 0,
    ensures
        n == side * side,
{
}

/// The pixel at column `x` and row `y` lies within the plane.
proof fn lemma_within(side: int, x: int, y: int)
    by (nonlinear_arith)
    requires
        0 <= x < side,
        0 <= y < side,
    ensures
        0 <= y * side,
        y * side + x < side * side,
        y * side + side <= side * side,
{
}

/// The place of a block in the plane of blocks.
proof fn lemma_cells_apart(blocks: int, qx: int, qy: int)
    by (nonlinear_arith)
    requires
        0 <= qx < blocks,
        0 <= qy,
    ensures
        qy * blocks + qx >= 0,
{
}

/// A block of an earlier row stands before every block of a later one.
proof fn lemma_row_before(blocks: int, x: int, y: int, qy: int)
    by (nonlinear_arith)
    requires
        0 <= x < blocks,
        0 <= y < qy,
    ensures
        0 <= y * blocks + x < qy * blocks,
{
}

} // verus!
