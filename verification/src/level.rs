//! A level: one tile grid, one ordered tileset (solidity plus visual
//! metadata per tile kind), and the spawn records consumed when the level
//! is entered. Exposes tile lookup by world position and the
//! tiles-overlapping-rectangle query that collision resolution uses.

use vstd::prelude::*;

verus! {

use crate::geom::{Rect, Vec2};
use crate::grid::{Coord, Grid, MAX_GRID};
use crate::SCALE;
use crate::WORLD_LIMIT;

/// A region of a sprite sheet: visual metadata carried for a renderer,
/// opaque to the simulation (only solidity matters to collision).
#[derive(Clone, Copy, Debug, PartialEq, Eq, Structural)]
pub struct SheetRegion {
    pub sheet: u16,
    pub x: u16,
    pub y: u16,
    pub depth: u16,
    pub w: i16,
    pub h: i16,
}

/// Per-tile-kind metadata: whether the tile blocks movement, and where its
/// picture lives on the sprite sheet.
#[derive(Clone, Copy, Debug, PartialEq, Eq, Structural)]
pub struct TileData {
    pub solid: bool,
    pub sheet_region: SheetRegion,
}

/// The ordered, index-addressed collection of tile kinds.
pub type Tileset = Vec<TileData>;

/// What kind of entity a spawn record places.
#[derive(Debug)]
pub enum EntityType {
    Player,
    Enemy,
    /// Destination level name, then x and y in the destination level.
    Door(String, u16, u16),
    Gold,
}

/// Why level construction was refused. These are load-time data errors;
/// a session is never built from a partially-valid level.
#[derive(Clone, Copy, Debug, PartialEq, Eq, Structural)]
pub enum LevelError {
    /// The flat tile data does not hold exactly `width * height` entries,
    /// or a grid side exceeds `MAX_GRID`.
    BadDimensions,
    /// The tileset has no entries.
    EmptyTileset,
    /// Some grid entry does not index into the tileset.
    BadTileIndex,
    /// No spawn record places the player.
    NoPlayerSpawn,
}

/// An immutable level: grid, tileset and spawn records.
pub struct Level {
    pub name: String,
    pub grid: Grid,
    pub tileset: Tileset,
    pub starts: Vec<(EntityType, Vec2)>,
}

/// Every grid entry indexes into a tileset of `n` kinds.
pub open spec fn spec_indices_valid(data: Seq<u8>, n: int) -> bool {
    forall|i: int| 0 <= i < data.len() ==> (data[i] as int) < n
}

/// Some spawn record places the player.
pub open spec fn spec_has_player(starts: Seq<(EntityType, Vec2)>) -> bool {
    exists|i: int| 0 <= i < starts.len() && starts[i].0 is Player
}

/// Index of the first spawn record that places the player, scanning from
/// `i` up.
pub open spec fn spec_first_player_from(starts: Seq<(EntityType, Vec2)>, i: int) -> Option<int>
    decreases starts.len() - i,
{
    if i < 0 || i >= starts.len() {
        None
    } else if starts[i].0 is Player {
        Some(i)
    } else {
        spec_first_player_from(starts, i + 1)
    }
}

/// A found first-player index is in range and marks a player record.
pub proof fn lemma_first_player_in_range(starts: Seq<(EntityType, Vec2)>, i: int)
    requires
        spec_first_player_from(starts, i) is Some,
    ensures
        i <= spec_first_player_from(starts, i)->Some_0 < starts.len(),
        starts[spec_first_player_from(starts, i)->Some_0].0 is Player,
    decreases starts.len() - i,
{
    if i < 0 || i >= starts.len() {
    } else if starts[i].0 is Player {
    } else {
        lemma_first_player_in_range(starts, i + 1);
    }
}

impl Level {
    /// Valid grid, every tile index resolvable, spawn positions within the
    /// world bounds.
    pub open spec fn wf(self) -> bool {
        &&& self.grid.wf()
        &&& self.tileset@.len() > 0
        &&& spec_indices_valid(self.grid.tiles@, self.tileset@.len() as int)
        &&& forall|i: int| 0 <= i < self.starts@.len() ==> (#[trigger] self.starts@[i]).1.wf()
    }

    /// The tile metadata at cell `(cx, cy)`.
    pub open spec fn spec_tile_data(self, cx: int, cy: int) -> TileData {
        self.tileset@[self.grid.spec_tile(cx, cy) as int]
    }

    /// Whether the cell at `(cx, cy)` blocks movement.
    pub open spec fn spec_solid_at(self, cx: int, cy: int) -> bool {
        self.spec_tile_data(cx, cy).solid
    }

    /// Validating constructor: fails fast and completely on bad level
    /// data, per the listed error cases, checked in this order.
    pub fn new(
        name: String,
        width: usize,
        height: usize,
        data: Vec<u8>,
        tileset: Tileset,
        starts: Vec<(EntityType, Vec2)>,
    ) -> (r: Result<Level, LevelError>)
        requires
            forall|i: int| 0 <= i < starts@.len() ==> (#[trigger] starts@[i]).1.wf(),
        ensures
            r is Err && r->Err_0 == LevelError::BadDimensions <==> !(data@.len() == width * height
                && width <= MAX_GRID && height <= MAX_GRID),
            r is Err && r->Err_0 == LevelError::EmptyTileset <==> data@.len() == width * height
                && width <= MAX_GRID && height <= MAX_GRID && tileset@.len() == 0,
            r is Err && r->Err_0 == LevelError::BadTileIndex <==> data@.len() == width * height
                && width <= MAX_GRID && height <= MAX_GRID && tileset@.len() > 0
                && !spec_indices_valid(data@, tileset@.len() as int),
            r is Err && r->Err_0 == LevelError::NoPlayerSpawn <==> data@.len() == width * height
                && width <= MAX_GRID && height <= MAX_GRID && tileset@.len() > 0
                && spec_indices_valid(data@, tileset@.len() as int) && !spec_has_player(starts@),
            r is Ok <==> data@.len() == width * height && width <= MAX_GRID && height <= MAX_GRID
                && tileset@.len() > 0 && spec_indices_valid(data@, tileset@.len() as int)
                && spec_has_player(starts@),
            r is Ok ==> {
                &&& r->Ok_0.wf()
                &&& r->Ok_0.name@ == name@
                &&& r->Ok_0.grid.width == width
                &&& r->Ok_0.grid.height == height
                &&& r->Ok_0.grid.tiles@ == data@
                &&& r->Ok_0.tileset@ == tileset@
                &&& r->Ok_0.starts@ == starts@
            },
    {
        if width > MAX_GRID || height > MAX_GRID {
            return Err(LevelError::BadDimensions);
        }
        proof {
            assert(width * height <= 0x100_0000_0000) by (nonlinear_arith)
                requires
                    width <= 0x10_0000,
                    height <= 0x10_0000,
            ;
        }
        if data.len() as u64 != (width as u64) * (height as u64) {
            return Err(LevelError::BadDimensions);
        }
        if tileset.len() == 0 {
            return Err(LevelError::EmptyTileset);
        }
        let mut i: usize = 0;
        while i < data.len()
            invariant
                i <= data@.len(),
                data@.len() == width * height,
                width <= MAX_GRID,
                height <= MAX_GRID,
                tileset@.len() > 0,
                forall|j: int| 0 <= j < i ==> (data@[j] as int) < tileset@.len(),
            decreases data@.len() - i,
        {
            if data[i] as usize >= tileset.len() {
                return Err(LevelError::BadTileIndex);
            }
            i = i + 1;
        }
        let mut k: usize = 0;
        let mut found = false;
        while k < starts.len()
            invariant
                k <= starts@.len(),
                data@.len() == width * height,
                width <= MAX_GRID,
                height <= MAX_GRID,
                tileset@.len() > 0,
                spec_indices_valid(data@, tileset@.len() as int),
                found <==> exists|j: int| 0 <= j < k && starts@[j].0 is Player,
            decreases starts@.len() - k,
        {
            if matches!(starts[k].0, EntityType::Player) {
                found = true;
            }
            k = k + 1;
        }
        if !found {
            return Err(LevelError::NoPlayerSpawn);
        }
        let grid = Grid::new(width, height, data);
        Ok(Level { name, grid, tileset, starts })
    }

    pub fn grid_width(&self) -> (r: usize)
        ensures
            r == self.grid.width,
    {
        self.grid.width()
    }

    pub fn grid_height(&self) -> (r: usize)
        ensures
            r == self.grid.height,
    {
        self.grid.height()
    }

    /// How many tile sprites a renderer needs for this level: one per cell.
    pub fn sprite_count(&self) -> (r: usize)
        requires
            self.wf(),
        ensures
            r == self.grid.width * self.grid.height,
    {
        let n = self.grid.tiles.len();
        proof {
            assert(self.grid.width * self.grid.height == self.grid.tiles@.len());
        }
        n
    }

    pub fn name(&self) -> (r: &String)
        ensures
            r@ == self.name@,
    {
        &self.name
    }

    pub fn starts(&self) -> (r: &Vec<(EntityType, Vec2)>)
        ensures
            r@ == self.starts@,
    {
        &self.starts
    }

    /// The position of the first spawn record that places the player.
    pub fn player_start(&self) -> (r: Option<Vec2>)
        ensures
            r is Some <==> spec_has_player(self.starts@),
            r is Some ==> spec_first_player_from(self.starts@, 0) is Some,
            r is Some ==> r == Some(
                self.starts@[spec_first_player_from(self.starts@, 0)->Some_0].1,
            ),
    {
        let mut k: usize = 0;
        while k < self.starts.len()
            invariant
                0 <= k <= self.starts@.len(),
                forall|j: int| 0 <= j < k ==> !((#[trigger] self.starts@[j]).0 is Player),
                spec_first_player_from(self.starts@, 0) == spec_first_player_from(
                    self.starts@,
                    k as int,
                ),
            decreases self.starts@.len() - k,
        {
            if matches!(self.starts[k].0, EntityType::Player) {
                proof {
                    assert(spec_first_player_from(self.starts@, k as int) == Some(k as int));
                }
                return Some(self.starts[k].1);
            }
            k = k + 1;
        }
        proof {
            if spec_has_player(self.starts@) {
                let j = choose|j: int| 0 <= j < self.starts@.len() && self.starts@[j].0 is Player;
                assert(!(self.starts@[j].0 is Player));
            }
        }
        None
    }

    /// What `get_tile` returns: the tile data of the cell containing the
    /// world position (coordinates truncated to cells), absent outside the
    /// grid.
    pub open spec fn spec_get_tile(self, pos: Vec2) -> Option<TileData> {
        if 0 <= pos.x && 0 <= pos.y && pos.x as int / (SCALE as int) < self.grid.width
            && pos.y as int / (SCALE as int) < self.grid.height {
            Some(self.spec_tile_data(pos.x as int / (SCALE as int), pos.y as int / (SCALE as int)))
        } else {
            None
        }
    }

    /// Tile lookup by (possibly fractional) world position: the position is
    /// truncated to its containing cell; absent when outside the grid.
    pub fn get_tile(&self, pos: Vec2) -> (r: Option<TileData>)
        requires
            self.wf(),
            pos.wf(),
        ensures
            r == self.spec_get_tile(pos),
    {
        if pos.x < 0 || pos.y < 0 {
            return None;
        }
        let cx = pos.x / SCALE;
        let cy = pos.y / SCALE;
        if cx >= self.grid.width as i64 || cy >= self.grid.height as i64 {
            return None;
        }
        match self.grid.get(cx as usize, cy as usize) {
            Some(idx) => {
                proof {
                    assert(0 <= cy as int * self.grid.width + cx as int
                        && cy as int * self.grid.width + (cx as int)
                        < self.grid.width * self.grid.height) by (nonlinear_arith)
                        requires
                            0 <= cx as int && (cx as int) < self.grid.width,
                            0 <= cy as int && (cy as int) < self.grid.height,
                    ;
                    assert((self.grid.tiles@[cy as int * self.grid.width + cx as int] as int)
                        < self.tileset@.len());
                }
                Some(self.tileset[idx as usize])
            },
            None => None,
        }
    }

    /// The open (non-solid) cells among the first `n` cells in row-major
    /// order, as `(x, y)` coordinates.
    pub open spec fn spec_open_cells(self, n: int) -> Seq<Coord>
        decreases n,
    {
        if n <= 0 {
            Seq::empty()
        } else {
            let prev = self.spec_open_cells(n - 1);
            let cx = (n - 1) % (self.grid.width as int);
            let cy = (n - 1) / (self.grid.width as int);
            if !self.spec_solid_at(cx, cy) {
                prev.push((cx as usize, cy as usize))
            } else {
                prev
            }
        }
    }

    /// Every cell `get_open_spaces` yields lies in the grid and is not
    /// solid: only non-solid cells are eligible for spawning.
    pub proof fn lemma_open_cells_sound(self, n: int)
        requires
            self.wf(),
            0 <= n <= self.grid.width * self.grid.height,
        ensures
            forall|k: int| 0 <= k < self.spec_open_cells(n).len() ==> {
                let c = #[trigger] self.spec_open_cells(n)[k];
                &&& (c.0 as int) < self.grid.width
                &&& (c.1 as int) < self.grid.height
                &&& !self.spec_solid_at(c.0 as int, c.1 as int)
            },
        decreases n,
    {
        if n > 0 {
            self.lemma_open_cells_sound(n - 1);
            let w = self.grid.width as int;
            let h = self.grid.height as int;
            assert(w > 0) by (nonlinear_arith)
                requires
                    0 < n <= w * h,
                    0 <= w,
                    0 <= h,
            ;
            vstd::arithmetic::div_mod::lemma_mod_bound(n - 1, w);
            let cx = (n - 1) % w;
            let cy = (n - 1) / w;
            vstd::arithmetic::div_mod::lemma_fundamental_div_mod(n - 1, w);
            assert(cy < h) by (nonlinear_arith)
                requires
                    n - 1 == w * cy + cx,
                    0 <= cx < w,
                    n - 1 < w * h,
                    0 < w,
            ;
            assert(cy >= 0) by (nonlinear_arith)
                requires
                    n - 1 == w * cy + cx,
                    0 <= cx < w,
                    0 <= n - 1,
                    0 < w,
            ;
            let s0 = self.spec_open_cells(n - 1);
            let s1 = self.spec_open_cells(n);
            if !self.spec_solid_at(cx, cy) {
                assert(s1 == s0.push((cx as usize, cy as usize)));
                assert forall|k: int| 0 <= k < s1.len() implies {
                    let c = #[trigger] s1[k];
                    &&& (c.0 as int) < self.grid.width
                    &&& (c.1 as int) < self.grid.height
                    &&& !self.spec_solid_at(c.0 as int, c.1 as int)
                } by {
                    if k < s0.len() {
                        assert(s1[k] == s0[k]);
                    } else {
                        assert(s1[k] == (cx as usize, cy as usize));
                    }
                }
            } else {
                assert(s1 == s0);
            }
        }
    }

    /// All non-solid cell coordinates, scanned row by row from the bottom.
    /// Only these cells are eligible for level-entry spawning.
    pub fn get_open_spaces(&self) -> (r: Vec<Coord>)
        requires
            self.wf(),
        ensures
            r@ == self.spec_open_cells(self.grid.width * self.grid.height),
    {
        let w = self.grid.width;
        let h = self.grid.height;
        let mut out: Vec<Coord> = Vec::new();
        let mut y: usize = 0;
        while y < h
            invariant
                self.wf(),
                w == self.grid.width,
                h == self.grid.height,
                y <= h,
                out@ == self.spec_open_cells(y * w),
            decreases h - y,
        {
            let mut x: usize = 0;
            while x < w
                invariant
                    self.wf(),
                    w == self.grid.width,
                    h == self.grid.height,
                    y < h,
                    x <= w,
                    out@ == self.spec_open_cells(y * w + x),
                decreases w - x,
            {
                let n = self.grid.tiles.len();
                proof {
                    assert(0 <= y as int * w + x as int && y as int * w + (x as int) < w * h)
                        by (nonlinear_arith)
                        requires
                            0 <= x as int && (x as int) < w as int,
                            0 <= y as int && (y as int) < h as int,
                    ;
                    assert((self.grid.tiles@[y as int * w + x as int] as int)
                        < self.tileset@.len());
                    vstd::arithmetic::div_mod::lemma_fundamental_div_mod_converse_div(
                        y as int * w + x as int,
                        w as int,
                        y as int,
                        x as int,
                    );
                    vstd::arithmetic::div_mod::lemma_fundamental_div_mod_converse_mod(
                        y as int * w + x as int,
                        w as int,
                        y as int,
                        x as int,
                    );
                }
                let idx = self.grid.tiles[y * w + x];
                if !self.tileset[idx as usize].solid {
                    out.push((x, y));
                }
                x = x + 1;
            }
            y = y + 1;
            proof {
                assert(y as int * w == (y - 1) as int * w + w) by (nonlinear_arith);
            }
        }
        proof {
            assert(h as int * w == w as int * h) by (nonlinear_arith);
        }
        out
    }

    /// First cell column the query rectangle can touch, clamped to the
    /// grid: `floor(r.x / SCALE)`.
    pub open spec fn spec_span_x0(self, r: Rect) -> int {
        if r.x <= 0 {
            0
        } else {
            crate::geom::spec_min(r.x as int / (SCALE as int), self.grid.width as int)
        }
    }

    /// One past the last cell column the query rectangle can touch,
    /// clamped to the grid: `ceil((r.x + r.w) / SCALE)`.
    pub open spec fn spec_span_x1(self, r: Rect) -> int {
        if r.x + r.w <= 0 {
            0
        } else {
            crate::geom::spec_min(
                (r.x + r.w + SCALE - 1) / (SCALE as int),
                self.grid.width as int,
            )
        }
    }

    pub open spec fn spec_span_y0(self, r: Rect) -> int {
        if r.y <= 0 {
            0
        } else {
            crate::geom::spec_min(r.y as int / (SCALE as int), self.grid.height as int)
        }
    }

    pub open spec fn spec_span_y1(self, r: Rect) -> int {
        if r.y + r.h <= 0 {
            0
        } else {
            crate::geom::spec_min(
                (r.y + r.h + SCALE - 1) / (SCALE as int),
                self.grid.height as int,
            )
        }
    }

    /// Number of cell columns in the clamped span.
    pub open spec fn spec_span_nx(self, r: Rect) -> int {
        crate::geom::spec_max(0, self.spec_span_x1(r) - self.spec_span_x0(r))
    }

    pub open spec fn spec_span_ny(self, r: Rect) -> int {
        crate::geom::spec_max(0, self.spec_span_y1(r) - self.spec_span_y0(r))
    }

    /// The unit-square world footprint of cell `(cx, cy)`.
    pub open spec fn spec_cell_rect(cx: int, cy: int) -> Rect {
        Rect { x: (cx * SCALE) as i64, y: (cy * SCALE) as i64, w: SCALE as i64, h: SCALE as i64 }
    }

    /// The `k`-th entry `tiles_within` returns: the cells of the clamped
    /// span in row-major order, each with its footprint and tile data.
    pub open spec fn spec_span_entry(self, r: Rect, k: int) -> (Rect, TileData) {
        let cx = self.spec_span_x0(r) + k % self.spec_span_nx(r);
        let cy = self.spec_span_y0(r) + k / self.spec_span_nx(r);
        (Level::spec_cell_rect(cx, cy), self.spec_tile_data(cx, cy))
    }

    /// Every tile cell whose unit-square footprint can intersect the query
    /// rectangle, with its world footprint and tile data: exactly the cell
    /// range `[floor(r.x/SCALE)..ceil((r.x+r.w)/SCALE)) x [floor(r.y/SCALE)
    /// ..ceil((r.y+r.h)/SCALE))` clamped to the grid bounds, row-major.
    /// Never scans the whole grid. This is the sole entry point the
    /// collision resolver uses.
    pub fn tiles_within(&self, r: &Rect) -> (res: Vec<(Rect, TileData)>)
        requires
            self.wf(),
            r.wf(),
        ensures
            res@.len() == self.spec_span_nx(*r) * self.spec_span_ny(*r),
            forall|k: int| 0 <= k < res@.len() ==> #[trigger] res@[k] == self.spec_span_entry(
                *r,
                k,
            ),
            forall|k: int| 0 <= k < res@.len() ==> (#[trigger] res@[k]).0.wf(),
    {
        let w = self.grid.width;
        let h = self.grid.height;
        let x0: usize = if r.x <= 0 {
            0
        } else {
            let c = r.x / SCALE;
            if c >= w as i64 {
                w
            } else {
                c as usize
            }
        };
        let x1: usize = if r.x + r.w <= 0 {
            0
        } else {
            let c = (r.x + r.w + SCALE - 1) / SCALE;
            if c >= w as i64 {
                w
            } else {
                c as usize
            }
        };
        let y0: usize = if r.y <= 0 {
            0
        } else {
            let c = r.y / SCALE;
            if c >= h as i64 {
                h
            } else {
                c as usize
            }
        };
        let y1: usize = if r.y + r.h <= 0 {
            0
        } else {
            let c = (r.y + r.h + SCALE - 1) / SCALE;
            if c >= h as i64 {
                h
            } else {
                c as usize
            }
        };
        let ghost nx = self.spec_span_nx(*r);
        let ghost ny = self.spec_span_ny(*r);
        proof {
            assert(x0 as int == self.spec_span_x0(*r));
            assert(x1 as int == self.spec_span_x1(*r));
            assert(y0 as int == self.spec_span_y0(*r));
            assert(y1 as int == self.spec_span_y1(*r));
        }
        let mut out: Vec<(Rect, TileData)> = Vec::new();
        if x1 <= x0 || y1 <= y0 {
            proof {
                assert(nx * ny == 0) by (nonlinear_arith)
                    requires
                        nx == 0 || ny == 0,
                ;
            }
            return out;
        }
        let mut cy: usize = y0;
        while cy < y1
            invariant
                self.wf(),
                r.wf(),
                x0 < x1 <= self.grid.width,
                y0 <= cy <= y1 <= self.grid.height,
                x0 as int == self.spec_span_x0(*r),
                x1 as int == self.spec_span_x1(*r),
                y0 as int == self.spec_span_y0(*r),
                y1 as int == self.spec_span_y1(*r),
                nx == x1 - x0,
                ny == y1 - y0,
                out@.len() == (cy - y0) * nx,
                forall|k: int| 0 <= k < out@.len() ==> #[trigger] out@[k] == self.spec_span_entry(
                    *r,
                    k,
                ),
                forall|k: int| 0 <= k < out@.len() ==> (#[trigger] out@[k]).0.wf(),
            decreases y1 - cy,
        {
            let mut cx: usize = x0;
            while cx < x1
                invariant
                    self.wf(),
                    r.wf(),
                    x0 < x1 <= self.grid.width,
                    y0 <= cy < y1 <= self.grid.height,
                    x0 <= cx <= x1,
                    x0 as int == self.spec_span_x0(*r),
                    x1 as int == self.spec_span_x1(*r),
                    y0 as int == self.spec_span_y0(*r),
                    y1 as int == self.spec_span_y1(*r),
                    nx == x1 - x0,
                    ny == y1 - y0,
                    out@.len() == (cy - y0) * nx + (cx - x0),
                    forall|k: int| 0 <= k < out@.len() ==> #[trigger] out@[k]
                        == self.spec_span_entry(*r, k),
                    forall|k: int| 0 <= k < out@.len() ==> (#[trigger] out@[k]).0.wf(),
                decreases x1 - cx,
            {
                proof {
                    assert(0 <= cx as int * SCALE && (cx as int) * SCALE + SCALE <= WORLD_LIMIT
                        && 0 <= cy as int * SCALE && (cy as int) * SCALE + SCALE <= WORLD_LIMIT)
                        by (nonlinear_arith)
                        requires
                            0 <= cx as int && (cx as int) < 0x8_0000,
                            0 <= cy as int && (cy as int) < 0x8_0000,
                            SCALE == 1024,
                            WORLD_LIMIT == 0x2000_0000,
                    ;
                }
                let tile_rect = Rect {
                    x: cx as i64 * SCALE,
                    y: cy as i64 * SCALE,
                    w: SCALE,
                    h: SCALE,
                };
                let n = self.grid.tiles.len();
                proof {
                    assert(0 <= cy as int * self.grid.width + cx as int
                        && cy as int * self.grid.width + (cx as int)
                        < self.grid.width * self.grid.height) by (nonlinear_arith)
                        requires
                            0 <= cx as int && (cx as int) < self.grid.width,
                            0 <= cy as int && (cy as int) < self.grid.height,
                    ;
                }
                let idx = self.grid.tiles[cy * self.grid.width + cx];
                proof {
                    assert((self.grid.tiles@[cy as int * self.grid.width + cx as int] as int)
                        < self.tileset@.len());
                }
                let data = self.tileset[idx as usize];
                proof {
                    let k0 = out@.len() as int;
                    vstd::arithmetic::div_mod::lemma_fundamental_div_mod_converse_div(
                        k0,
                        nx,
                        cy - y0,
                        cx - x0,
                    );
                    vstd::arithmetic::div_mod::lemma_fundamental_div_mod_converse_mod(
                        k0,
                        nx,
                        cy - y0,
                        cx - x0,
                    );
                    assert(self.spec_span_entry(*r, k0) == (tile_rect, data));
                }
                out.push((tile_rect, data));
                cx = cx + 1;
            }
            cy = cy + 1;
            proof {
                assert((cy - y0) * nx == (cy - 1 - y0) * nx + nx) by (nonlinear_arith);
            }
        }
        proof {
            assert(nx * ny == ny * nx) by (nonlinear_arith);
        }
        out
    }
}

} // verus!
