//! How the positions of a grid are numbered when its cells are listed one
//! after the other: column by column, each column from row 0 on.

use vstd::prelude::*;

verus! {

/// The place of position `(x, y)` in a list of the cells of a grid with
/// `height` rows.
pub open spec fn offset(x: int, y: int, height: int) -> int {
    x * height + y
}

/// A position within the bounds has its place within the list.
pub proof fn lemma_offset_in_range(x: int, y: int, width: int, height: int)
    requires
        0 <= x < width,
        0 <= y < height,
    ensures
        0 <= x * height,
        0 <= offset(x, y, height) < width * height,
{
    assert(0 <= x * height && x * height + y < width * height) by (nonlinear_arith)
        requires
            0 <= x < width,
            0 <= y < height,
    {
        assert((x + 1) * height <= width * height);
    }
}

/// Two positions that share a place in the list are the same position.
pub proof fn lemma_offset_injective(x1: int, y1: int, x2: int, y2: int, height: int)
    requires
        0 <= y1 < height,
        0 <= y2 < height,
        offset(x1, y1, height) == offset(x2, y2, height),
    ensures
        x1 == x2,
        y1 == y2,
{
    assert(x1 == x2) by (nonlinear_arith)
        requires
            0 <= y1 < height,
            0 <= y2 < height,
            x1 * height + y1 == x2 * height + y2,
    {
        if x1 < x2 {
            assert((x1 + 1) * height <= x2 * height);
        } else if x2 < x1 {
            assert((x2 + 1) * height <= x1 * height);
        }
    }
}

/// The list runs through the columns in order, and through each column from
/// row 0 on: a position in an earlier column, or in the same column and an
/// earlier row, has an earlier place.
pub proof fn lemma_offset_ordered(x1: int, y1: int, x2: int, y2: int, height: int)
    requires
        0 <= y1 < height,
        0 <= y2 <= height,
        x1 < x2 || (x1 == x2 && y1 < y2),
    ensures
        offset(x1, y1, height) < offset(x2, y2, height),
{
    if x1 < x2 {
        assert(x1 * height + y1 < x2 * height + y2) by (nonlinear_arith)
            requires
                0 <= y1 < height,
                0 <= y2,
                x1 < x2,
        {
            assert((x1 + 1) * height <= x2 * height);
        }
    }
}

/// Every place of the list belongs to a position within the bounds.
pub proof fn lemma_position_of(k: int, width: int, height: int) -> (p: (int, int))
    requires
        0 <= width,
        0 <= height,
        0 <= k < width * height,
    ensures
        0 <= p.0 < width,
        0 <= p.1 < height,
        offset(p.0, p.1, height) == k,
{
    assert(height > 0) by (nonlinear_arith)
        requires
            0 <= height,
            0 <= width,
            0 < width * height,
    ;
    let x = k / height;
    let y = k % height;
    assert(k == x * height + y && 0 <= y < height) by (nonlinear_arith)
        requires
            height > 0,
            x == k / height,
            y == k % height,
    ;
    assert(0 <= x < width) by (nonlinear_arith)
        requires
            k == x * height + y,
            0 <= y < height,
            0 <= k < width * height,
    {
        if x >= width {
            assert(x * height >= width * height);
        }
        if x < 0 {
            assert((x + 1) * height <= 0);
        }
    }
    (x, y)
}

} // verus!
