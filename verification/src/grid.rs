//! The tile grid: a fixed-size, row-major array of tile indices with
//! bounds-checked lookup and per-row extraction.

use vstd::prelude::*;

verus! {

/// A grid cell coordinate.
pub type Coord = (usize, usize);

/// Largest accepted grid side, so that cell coordinates scaled to world
/// subunits stay within the world bounds.
pub const MAX_GRID: usize = 0x8_0000;

/// A `width` x `height` grid of tile indices, stored row-major: the cell
/// `(x, y)` is at position `y * width + x`. Built once at level-load time
/// and immutable during play.
pub struct Grid {
    pub width: usize,
    pub height: usize,
    pub tiles: Vec<u8>,
}

impl Grid {
    /// The storage holds exactly one index per cell, and the sides are
    /// small enough for world-coordinate arithmetic.
    pub open spec fn wf(self) -> bool {
        &&& self.tiles@.len() == self.width * self.height
        &&& self.width <= MAX_GRID
        &&& self.height <= MAX_GRID
    }

    /// The tile index stored at cell `(x, y)`.
    pub open spec fn spec_tile(self, x: int, y: int) -> u8 {
        self.tiles@[y * self.width + x]
    }

    /// Whether `(x, y)` addresses a cell of the grid.
    pub open spec fn spec_in_bounds(self, x: int, y: int) -> bool {
        0 <= x < self.width && 0 <= y < self.height
    }

    /// Construct a grid from a flat row-major sequence. The caller
    /// guarantees that the data has exactly `width * height` entries;
    /// violating that is a programmer error, not a runtime-data error.
    pub fn new(width: usize, height: usize, data: Vec<u8>) -> (g: Grid)
        requires
            data@.len() == width * height,
            width <= MAX_GRID,
            height <= MAX_GRID,
        ensures
            g.wf(),
            g.width == width,
            g.height == height,
            g.tiles@ == data@,
    {
        Grid { width, height, tiles: data }
    }

    pub fn width(&self) -> (r: usize)
        ensures
            r == self.width,
    {
        self.width
    }

    pub fn height(&self) -> (r: usize)
        ensures
            r == self.height,
    {
        self.height
    }

    /// Bounds-checked lookup: absent outside `[0, width) x [0, height)`,
    /// the stored index inside. No silent clamping.
    pub fn get(&self, x: usize, y: usize) -> (r: Option<u8>)
        requires
            self.wf(),
        ensures
            r is Some <==> self.spec_in_bounds(x as int, y as int),
            self.spec_in_bounds(x as int, y as int) ==> r == Some(
                self.spec_tile(x as int, y as int),
            ),
    {
        if x < self.width && y < self.height {
            let n = self.tiles.len();
            proof {
                assert(y * self.width + x < self.width * self.height) by (nonlinear_arith)
                    requires
                        x < self.width,
                        y < self.height,
                ;
            }
            Some(self.tiles[y * self.width + x])
        } else {
            None
        }
    }

    /// One row of the grid, from bottom (`y == 0`) up; there are exactly
    /// `height` rows. Restartable bulk access for consumers such as a
    /// renderer.
    pub fn row(&self, y: usize) -> (r: Vec<u8>)
        requires
            self.wf(),
            y < self.height,
        ensures
            r@.len() == self.width,
            forall|x: int| 0 <= x < self.width ==> r@[x] == self.spec_tile(x, y as int),
    {
        let mut out: Vec<u8> = Vec::new();
        let mut x: usize = 0;
        while x < self.width
            invariant
                self.wf(),
                y < self.height,
                x <= self.width,
                out@.len() == x,
                forall|i: int| 0 <= i < x ==> out@[i] == self.spec_tile(i, y as int),
            decreases self.width - x,
        {
            let n = self.tiles.len();
            proof {
                assert(y * self.width + x < self.width * self.height) by (nonlinear_arith)
                    requires
                        x < self.width,
                        y < self.height,
                ;
            }
            out.push(self.tiles[y * self.width + x]);
            x = x + 1;
        }
        out
    }
}

} // verus!
