//! Dense two-dimensional grids of colours, stored column by column: the
//! colour of cell `(i, j)` is `grid[i][j]`.

use vstd::prelude::*;

verus! {

/// Whether `grid` has `width` columns of `height` cells each.
pub open spec fn has_shape(grid: Seq<Vec<u32>>, width: int, height: int) -> bool {
    &&& grid.len() == width
    &&& forall|i: int| 0 <= i < grid.len() ==> (#[trigger] grid[i]).len() == height
}

/// A grid of `width` columns and `height` rows with `fill` in every cell.
pub fn filled_grid(width: usize, height: usize, fill: u32) -> (grid: Vec<Vec<u32>>)
    ensures
        has_shape(grid@, width as int, height as int),
        forall|i: int, j: int|
            0 <= i < width && 0 <= j < height ==> (#[trigger] grid[i][j]) == fill,
{
    let mut grid: Vec<Vec<u32>> = Vec::new();
    let mut i: usize = 0;
    while i < width
        invariant
            i <= width,
            has_shape(grid@, i as int, height as int),
            forall|a: int, b: int| 0 <= a < i && 0 <= b < height ==> (#[trigger] grid[a][b]) == fill,
        decreases width - i,
    {
        let mut column: Vec<u32> = Vec::new();
        let mut j: usize = 0;
        while j < height
            invariant
                j <= height,
                column.len() == j,
                forall|b: int| 0 <= b < j ==> column[b] == fill,
            decreases height - j,
        {
            column.push(fill);
            j += 1;
        }
        grid.push(column);
        i += 1;
    }
    grid
}

} // verus!
