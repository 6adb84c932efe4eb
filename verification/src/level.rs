//! The level model: a rectangular grid of tiles, each free or a wall
//! with a material key, the billboard sprites living in it, and the
//! centered world-to-grid coordinate mapping.  Out-of-bounds queries
//! resolve to "wall" on purpose, so rays and collision checks can never
//! escape the grid.

use crate::grid::{position_to_coords, GridCoords};
use crate::math::Vec2;
use crate::num::{abs_int, div_floor};
use crate::render::Color;
use vstd::prelude::*;

verus! {

/// Largest accepted number of rows or columns.
pub const MAX_GRID_DIM: usize = 4096;

/// Largest accepted tile size, in world subunits.
pub const MAX_TILE_SIZE: i64 = 0x10_0000;

/// Positions handed to the level mapping stay below this magnitude.
pub const MAX_WORLD_POS: i64 = 0x1_0000_0000_0000;

/// One tile: free space, or a wall carrying its material key.
#[derive(Clone, Copy, Debug, PartialEq, Eq, Structural)]
pub enum LevelBlock {
    Free,
    Wall(u8),
}

impl LevelBlock {
    /// Whether this tile is solid.
    pub open spec fn is_wall_spec(self) -> bool {
        self is Wall
    }

    /// Whether this tile is solid.
    pub fn is_wall(self) -> (r: bool)
        ensures
            r == self.is_wall_spec(),
    {
        match self {
            LevelBlock::Free => false,
            LevelBlock::Wall(_) => true,
        }
    }

    /// The tile a level-source digit denotes.
    pub open spec fn from_digit_spec(d: u8) -> Option<LevelBlock> {
        if d == 0 {
            Some(LevelBlock::Free)
        } else if d <= 3 {
            Some(LevelBlock::Wall(d))
        } else {
            None
        }
    }

    /// Maps a level-source digit to a tile: `0` is free, `1` to `3` are
    /// the wall materials, anything else is rejected rather than aliased
    /// to a default wall.
    pub fn from_digit(d: u8) -> (r: Option<LevelBlock>)
        ensures
            r == Self::from_digit_spec(d),
    {
        if d == 0 {
            Some(LevelBlock::Free)
        } else if d <= 3 {
            Some(LevelBlock::Wall(d))
        } else {
            None
        }
    }

    /// The digit that denotes this tile in a level source.
    pub fn to_digit(self) -> (d: u8)
        requires
            self is Wall ==> 1 <= self->0 <= 3,
        ensures
            Self::from_digit_spec(d) == Some(self),
    {
        match self {
            LevelBlock::Free => 0,
            LevelBlock::Wall(m) => m,
        }
    }
}

/// Why a level source was rejected.
#[derive(Clone, Copy, Debug, PartialEq, Eq, Structural)]
pub enum LevelError {
    EmptyGrid,
    UnequalRows,
    InvalidDigit,
    TooLarge,
}

/// A billboard sprite: a world position, the grid cell it was last seen
/// in, and the key of its image in the texture store.  A static sprite's
/// cached cell never changes after spawn.
#[derive(Clone, Copy, Debug, PartialEq, Eq, Structural)]
pub struct LevelSprite {
    pub pos: Vec2,
    pub distance_to_player: i64,
    pub coords: GridCoords,
    pub is_static: bool,
    pub sprite: usize,
}

/// A tile level: the grid (row-major, every row the same length), the
/// side of one tile in world subunits, and the sprites living in it.
pub struct Level {
    pub grid: Vec<Vec<LevelBlock>>,
    pub tile_size: i64,
    pub sprites: Vec<LevelSprite>,
}

impl Level {
    /// Well-formedness: a nonempty rectangular grid of bounded size and
    /// a tile size of at least two subunits (so the raycaster's one
    /// subunit nudge stays inside a tile).
    pub open spec fn grid_wf(&self) -> bool {
        &&& 1 <= self.grid@.len() <= MAX_GRID_DIM
        &&& 1 <= self.grid@[0]@.len() <= MAX_GRID_DIM
        &&& forall|i: int|
            0 <= i < self.grid@.len() ==> (#[trigger] self.grid@[i])@.len() == self.grid@[0]@.len()
        &&& 2 <= self.tile_size <= MAX_TILE_SIZE
    }

    /// Number of rows.
    pub open spec fn rows(&self) -> int {
        self.grid@.len() as int
    }

    /// Number of columns.
    pub open spec fn cols(&self) -> int {
        self.grid@[0]@.len() as int
    }

    /// The tile at column `x`, row `y`.
    pub open spec fn block_at(&self, x: int, y: int) -> LevelBlock {
        self.grid@[y]@[x]
    }

    /// Whether `(x, y)` lies on the grid.
    pub open spec fn in_bounds(&self, x: int, y: int) -> bool {
        0 <= x < self.cols() && 0 <= y < self.rows()
    }

    /// Solidity of a cell; everything off the grid counts as solid.
    pub open spec fn is_wall_at(&self, x: int, y: int) -> bool {
        !self.in_bounds(x, y) || self.block_at(x, y).is_wall_spec()
    }

    /// Horizontal half-span of the grid in world subunits; the world
    /// origin sits at the grid center.
    pub open spec fn ext_x(&self) -> int {
        (self.cols() * self.tile_size) / 2
    }

    /// Vertical half-span of the grid in world subunits.
    pub open spec fn ext_y(&self) -> int {
        (self.rows() * self.tile_size) / 2
    }

    /// The level coordinate of a world position: shift by the extents,
    /// then floor-divide by the tile size.
    pub open spec fn coord_of(&self, px: int, py: int) -> (int, int) {
        ((px + self.ext_x()) / self.tile_size as int, (py + self.ext_y()) / self.tile_size as int)
    }

    /// Number of rows.
    pub fn row_count(&self) -> (r: usize)
        ensures
            r == self.rows(),
    {
        self.grid.len()
    }

    /// Number of columns.
    pub fn column_count(&self) -> (r: usize)
        requires
            self.grid_wf(),
        ensures
            r == self.cols(),
    {
        self.grid[0].len()
    }

    /// Total width of the grid in world subunits.
    pub fn width(&self) -> (r: i64)
        requires
            self.grid_wf(),
        ensures
            r == self.cols() * self.tile_size,
    {
        proof {
            lemma_span_bounds(self.cols(), self.tile_size as int);
        }
        (self.column_count() as i64) * self.tile_size
    }

    /// Total height of the grid in world subunits.
    pub fn height(&self) -> (r: i64)
        requires
            self.grid_wf(),
        ensures
            r == self.rows() * self.tile_size,
    {
        proof {
            lemma_span_bounds(self.rows(), self.tile_size as int);
        }
        (self.row_count() as i64) * self.tile_size
    }

    /// Half-spans of the grid: the world origin is its center.
    pub fn extents(&self) -> (v: Vec2)
        requires
            self.grid_wf(),
        ensures
            v.x == self.ext_x(),
            v.y == self.ext_y(),
            0 <= v.x <= 0x80_0000_0000,
            0 <= v.y <= 0x80_0000_0000,
    {
        proof {
            lemma_span_bounds(self.cols(), self.tile_size as int);
            lemma_span_bounds(self.rows(), self.tile_size as int);
        }
        let w = self.width();
        let h = self.height();
        Vec2 { x: div_floor(w, 2), y: div_floor(h, 2) }
    }

    /// Half-extents of one tile.
    pub fn tile_extents(&self) -> (v: Vec2)
        requires
            self.grid_wf(),
        ensures
            v.x == self.tile_size / 2,
            v.y == self.tile_size / 2,
    {
        let half = div_floor(self.tile_size, 2);
        Vec2 { x: half, y: half }
    }

    /// World position of the bottom-left corner of tile `(x, y)`.
    pub fn tile_bl(&self, x: i64, y: i64) -> (v: Vec2)
        requires
            self.grid_wf(),
            abs_int(x as int * self.tile_size as int) <= 0x10_0000_0000_0000,
            abs_int(y as int * self.tile_size as int) <= 0x10_0000_0000_0000,
        ensures
            v.x == x * self.tile_size - self.ext_x(),
            v.y == y * self.tile_size - self.ext_y(),
    {
        let base = crate::grid::tile_bl(x, y, self.tile_size);
        let ext = self.extents();
        Vec2 { x: base.x - ext.x, y: base.y - ext.y }
    }

    /// World position of the center of tile `(x, y)`.
    pub fn tile_center(&self, x: i64, y: i64) -> (v: Vec2)
        requires
            self.grid_wf(),
            abs_int(x as int * self.tile_size as int) <= 0x10_0000_0000_0000,
            abs_int(y as int * self.tile_size as int) <= 0x10_0000_0000_0000,
        ensures
            v.x == x * self.tile_size + self.tile_size / 2 - self.ext_x(),
            v.y == y * self.tile_size + self.tile_size / 2 - self.ext_y(),
    {
        let base = crate::grid::tile_center(x, y, self.tile_size);
        let ext = self.extents();
        Vec2 { x: base.x - ext.x, y: base.y - ext.y }
    }

    /// The grid coordinate holding a world position.
    pub fn pos_to_coords(&self, pos: Vec2) -> (c: GridCoords)
        requires
            self.grid_wf(),
            abs_int(pos.x as int) <= MAX_WORLD_POS,
            abs_int(pos.y as int) <= MAX_WORLD_POS,
        ensures
            (c.x as int, c.y as int) == self.coord_of(pos.x as int, pos.y as int),
    {
        let ext = self.extents();
        position_to_coords(Vec2 { x: pos.x + ext.x, y: pos.y + ext.y }, self.tile_size)
    }

    /// The grid coordinate holding a world position; a synonym of
    /// `pos_to_coords` kept for callers that use the longer name.
    pub fn position_to_coords(&self, pos: Vec2) -> (c: GridCoords)
        requires
            self.grid_wf(),
            abs_int(pos.x as int) <= MAX_WORLD_POS,
            abs_int(pos.y as int) <= MAX_WORLD_POS,
        ensures
            (c.x as int, c.y as int) == self.coord_of(pos.x as int, pos.y as int),
    {
        self.pos_to_coords(pos)
    }

    /// The tile at `(x, y)`, or `None` off the grid.
    pub fn get_tile(&self, x: i64, y: i64) -> (r: Option<LevelBlock>)
        requires
            self.grid_wf(),
        ensures
            r == if self.in_bounds(x as int, y as int) {
                Some(self.block_at(x as int, y as int))
            } else {
                None::<LevelBlock>
            },
    {
        if x >= 0 && x < self.column_count() as i64 && y >= 0 && y < self.row_count() as i64 {
            Some(self.grid[y as usize][x as usize])
        } else {
            None
        }
    }

    /// The tile at `(x, y)`, or `None` off the grid; a synonym of
    /// `get_tile` kept for callers that use the longer name.
    pub fn try_get_tile(&self, x: i64, y: i64) -> (r: Option<LevelBlock>)
        requires
            self.grid_wf(),
        ensures
            r == if self.in_bounds(x as int, y as int) {
                Some(self.block_at(x as int, y as int))
            } else {
                None::<LevelBlock>
            },
    {
        self.get_tile(x, y)
    }

    /// Overwrites the tile at `(x, y)`; reports whether `(x, y)` was on
    /// the grid.  The grid shape, tile size and sprites are untouched.
    pub fn set_tile(&mut self, x: i64, y: i64, block: LevelBlock) -> (hit: bool)
        requires
            old(self).grid_wf(),
        ensures
            hit == old(self).in_bounds(x as int, y as int),
            final(self).grid_wf(),
            final(self).rows() == old(self).rows(),
            final(self).cols() == old(self).cols(),
            final(self).tile_size == old(self).tile_size,
            final(self).sprites == old(self).sprites,
            forall|i: int, j: int|
                old(self).in_bounds(i, j) && (i != x as int || j != y as int)
                    ==> final(self).block_at(i, j) == old(self).block_at(i, j),
            hit ==> final(self).block_at(x as int, y as int) == block,
    {
        if x >= 0 && x < self.column_count() as i64 && y >= 0 && y < self.row_count() as i64 {
            self.grid[y as usize][x as usize] = block;
            true
        } else {
            false
        }
    }

    /// Solidity of the cell at `(x, y)`; off-grid cells count as solid.
    pub fn is_wall(&self, x: i64, y: i64) -> (r: bool)
        requires
            self.grid_wf(),
        ensures
            r == self.is_wall_at(x as int, y as int),
    {
        match self.get_tile(x, y) {
            Some(t) => t.is_wall(),
            None => true,
        }
    }

    /// The flat display color of a tile.
    pub fn tile_color(t: LevelBlock) -> (c: Color)
        ensures
            c == Self::tile_color_spec(t),
    {
        match t {
            LevelBlock::Free => Color { r: 255, g: 255, b: 255, a: 255 },
            LevelBlock::Wall(m) => {
                if m == 1 {
                    Color { r: 255, g: 0, b: 0, a: 255 }
                } else if m == 2 {
                    Color { r: 0, g: 255, b: 255, a: 255 }
                } else if m == 3 {
                    Color { r: 0, g: 255, b: 0, a: 255 }
                } else {
                    Color { r: 0, g: 0, b: 0, a: 255 }
                }
            },
        }
    }

    /// The flat display color of a tile: white for free space, the
    /// material palette for walls, black for an unknown material.
    pub open spec fn tile_color_spec(t: LevelBlock) -> Color {
        match t {
            LevelBlock::Free => Color { r: 255, g: 255, b: 255, a: 255 },
            LevelBlock::Wall(m) => {
                if m == 1 {
                    Color { r: 255, g: 0, b: 0, a: 255 }
                } else if m == 2 {
                    Color { r: 0, g: 255, b: 255, a: 255 }
                } else if m == 3 {
                    Color { r: 0, g: 255, b: 0, a: 255 }
                } else {
                    Color { r: 0, g: 0, b: 0, a: 255 }
                }
            },
        }
    }

    /// The flat display color of the cell at `(x, y)`; off-grid cells
    /// show as free space.
    pub fn get_tile_color(&self, x: i64, y: i64) -> (c: Color)
        requires
            self.grid_wf(),
        ensures
            c == Self::tile_color_spec(
                if self.in_bounds(x as int, y as int) {
                    self.block_at(x as int, y as int)
                } else {
                    LevelBlock::Free
                },
            ),
    {
        match self.get_tile(x, y) {
            Some(t) => Self::tile_color(t),
            None => Self::tile_color(LevelBlock::Free),
        }
    }
}

/// The extents of a well-formed level are small and nonnegative.
pub proof fn lemma_extents_bounds(level: Level)
    requires
        level.grid_wf(),
    ensures
        0 <= level.ext_x() <= 0x80_0000_0000,
        0 <= level.ext_y() <= 0x80_0000_0000,
{
    lemma_span_bounds(level.cols(), level.tile_size as int);
    lemma_span_bounds(level.rows(), level.tile_size as int);
    crate::num::lemma_div_magnitude(level.cols() * level.tile_size, 2);
    crate::num::lemma_div_magnitude(level.rows() * level.tile_size, 2);
}

/// A grid span (dimension times tile size) fits comfortably in an `i64`.
proof fn lemma_span_bounds(dim: int, tile_size: int)
    requires
        1 <= dim <= MAX_GRID_DIM,
        1 <= tile_size <= MAX_TILE_SIZE,
    ensures
        0 <= dim * tile_size <= 0x100_0000_0000,
{
    assert(dim * tile_size >= 0 && dim * tile_size <= 0x100_0000_0000) by (nonlinear_arith)
        requires
            1 <= dim <= MAX_GRID_DIM,
            1 <= tile_size <= MAX_TILE_SIZE,
    ;
}

/// The sequence-of-sequences view of rows of digit bytes.
pub open spec fn digit_rows_view(rows: &Vec<Vec<u8>>) -> Seq<Seq<u8>> {
    Seq::new(rows@.len(), |i: int| rows@[i]@)
}

/// A fully well-formed row neither changes the reported error nor ends
/// the scan.
proof fn lemma_rows_error_skip(rows: Seq<Seq<u8>>, y: int)
    requires
        0 <= y < rows.len(),
        rows[y].len() == rows[0].len(),
        forall|x: int|
            0 <= x < rows[y].len() ==> LevelBlock::from_digit_spec(#[trigger] rows[y][x]) is Some,
    ensures
        spec_rows_error_from(rows, y) == spec_rows_error_from(rows, y + 1),
{
}

/// Builds a level from rows of digits: `0` is free space, `1` to `3` are
/// wall materials.  Rejects an empty grid, unequal row lengths, a digit
/// outside the palette, and a grid over the size cap.
#[verifier::loop_isolation(false)]
pub fn level_from_digit_rows(rows: &Vec<Vec<u8>>, tile_size: i64) -> (r: Result<Level, LevelError>)
    requires
        2 <= tile_size <= MAX_TILE_SIZE,
    ensures
        r is Ok ==> ({
            let level = r->Ok_0;
            &&& level.grid_wf()
            &&& level.rows() == rows@.len()
            &&& level.cols() == rows@[0]@.len()
            &&& level.tile_size == tile_size
            &&& level.sprites@.len() == 0
            &&& forall|y: int, x: int|
                level.in_bounds(x, y) ==> Some(#[trigger] level.block_at(x, y))
                    == LevelBlock::from_digit_spec(rows@[y]@[x])
        }),
        r is Ok <==> ({
            &&& 1 <= rows@.len() <= MAX_GRID_DIM
            &&& 1 <= rows@[0]@.len() <= MAX_GRID_DIM
            &&& forall|y: int| 0 <= y < rows@.len() ==> (#[trigger] rows@[y])@.len() == rows@[0]@.len()
            &&& forall|y: int, x: int|
                0 <= y < rows@.len() && 0 <= x < rows@[y]@.len()
                    ==> LevelBlock::from_digit_spec(#[trigger] rows@[y]@[x]) is Some
        }),
        r is Err ==> r->Err_0 == spec_level_rows_error(digit_rows_view(rows)),
{
    let ghost dv = digit_rows_view(rows);
    if rows.len() == 0 {
        return Err(LevelError::EmptyGrid);
    }
    if rows[0].len() == 0 {
        return Err(LevelError::EmptyGrid);
    }
    if rows.len() > MAX_GRID_DIM || rows[0].len() > MAX_GRID_DIM {
        return Err(LevelError::TooLarge);
    }
    let width = rows[0].len();
    let mut grid: Vec<Vec<LevelBlock>> = Vec::new();
    let mut y: usize = 0;
    while y < rows.len()
        invariant
            0 <= y <= rows@.len(),
            grid@.len() == y,
            spec_rows_error_from(dv, 0) == spec_rows_error_from(dv, y as int),
            forall|j: int| 0 <= j < y ==> (#[trigger] grid@[j])@.len() == width,
            forall|j: int| 0 <= j < y ==> (#[trigger] rows@[j])@.len() == width,
            forall|j: int, x: int|
                0 <= j < y && 0 <= x < width ==> Some(#[trigger] grid@[j]@[x])
                    == LevelBlock::from_digit_spec(rows@[j]@[x]),
        decreases rows@.len() - y,
    {
        let row = &rows[y];
        if row.len() != width {
            proof {
                assert(spec_rows_error_from(dv, y as int) == LevelError::UnequalRows);
            }
            return Err(LevelError::UnequalRows);
        }
        let mut out_row: Vec<LevelBlock> = Vec::new();
        let mut x: usize = 0;
        while x < row.len()
            invariant
                0 <= x <= row@.len(),
                out_row@.len() == x,
                forall|i: int|
                    0 <= i < x ==> Some(#[trigger] out_row@[i]) == LevelBlock::from_digit_spec(
                        row@[i],
                    ),
            decreases row@.len() - x,
        {
            match LevelBlock::from_digit(row[x]) {
                Some(block) => {
                    out_row.push(block);
                },
                None => {
                    proof {
                        assert(LevelBlock::from_digit_spec(dv[y as int][x as int]) is None);
                        assert(spec_rows_error_from(dv, y as int) == LevelError::InvalidDigit);
                    }
                    return Err(LevelError::InvalidDigit);
                },
            }
            x += 1;
        }
        grid.push(out_row);
        proof {
            assert forall|i: int| 0 <= i < dv[y as int].len() implies LevelBlock::from_digit_spec(
                #[trigger] dv[y as int][i],
            ) is Some by {
                assert(Some(out_row@[i]) == LevelBlock::from_digit_spec(row@[i]));
            }
            lemma_rows_error_skip(dv, y as int);
        }
        y += 1;
    }
    proof {
        assert forall|j: int, x: int|
            0 <= j < rows@.len() && 0 <= x < rows@[j]@.len() implies LevelBlock::from_digit_spec(
            #[trigger] rows@[j]@[x],
        ) is Some by {
            assert(Some(grid@[j]@[x]) == LevelBlock::from_digit_spec(rows@[j]@[x]));
        }
    }
    Ok(Level { grid, tile_size, sprites: Vec::new() })
}

/// The error a malformed digit grid is rejected with: emptiness first,
/// then the size cap, then the first offending row, where an unequal
/// length is reported before a bad digit.
pub open spec fn spec_level_rows_error(rows: Seq<Seq<u8>>) -> LevelError {
    if rows.len() == 0 || rows[0].len() == 0 {
        LevelError::EmptyGrid
    } else if rows.len() > MAX_GRID_DIM || rows[0].len() > MAX_GRID_DIM {
        LevelError::TooLarge
    } else {
        spec_rows_error_from(rows, 0)
    }
}

/// The error reported for the first malformed row at or after `y`.
pub open spec fn spec_rows_error_from(rows: Seq<Seq<u8>>, y: int) -> LevelError
    decreases rows.len() - y when 0 <= y <= rows.len()
{
    if y >= rows.len() {
        LevelError::EmptyGrid
    } else if rows[y].len() != rows[0].len() {
        LevelError::UnequalRows
    } else if exists|x: int|
        0 <= x < rows[y].len() && LevelBlock::from_digit_spec(#[trigger] rows[y][x]) is None {
        LevelError::InvalidDigit
    } else {
        spec_rows_error_from(rows, y + 1)
    }
}

/// Renders a level back to rows of digits; the inverse of
/// `level_from_digit_rows` on well-formed levels.
pub fn level_to_digit_rows(level: &Level) -> (rows: Vec<Vec<u8>>)
    requires
        level.grid_wf(),
        forall|y: int, x: int|
            level.in_bounds(x, y) ==> ((#[trigger] level.block_at(x, y)) is Wall
                ==> 1 <= level.block_at(x, y)->0 <= 3),
    ensures
        rows@.len() == level.rows(),
        forall|y: int| 0 <= y < rows@.len() ==> (#[trigger] rows@[y])@.len() == level.cols(),
        forall|y: int, x: int|
            0 <= y < rows@.len() && 0 <= x < level.cols() ==> LevelBlock::from_digit_spec(
                #[trigger] rows@[y]@[x],
            ) == Some(level.block_at(x, y)),
{
    let mut rows: Vec<Vec<u8>> = Vec::new();
    let mut y: usize = 0;
    let height = level.row_count();
    let width = level.column_count();
    while y < height
        invariant
            0 <= y <= height,
            height == level.rows(),
            width == level.cols(),
            level.grid_wf(),
            forall|j: int, x: int|
                level.in_bounds(x, j) ==> ((#[trigger] level.block_at(x, j)) is Wall
                    ==> 1 <= level.block_at(x, j)->0 <= 3),
            rows@.len() == y,
            forall|j: int| 0 <= j < y ==> (#[trigger] rows@[j])@.len() == level.cols(),
            forall|j: int, x: int|
                0 <= j < y && 0 <= x < level.cols() ==> LevelBlock::from_digit_spec(
                    #[trigger] rows@[j]@[x],
                ) == Some(level.block_at(x, j)),
        decreases height - y,
    {
        let mut out_row: Vec<u8> = Vec::new();
        let mut x: usize = 0;
        while x < width
            invariant
                0 <= x <= width,
                0 <= y < height,
                height == level.rows(),
                width == level.cols(),
                level.grid_wf(),
                forall|j: int, i: int|
                    level.in_bounds(i, j) ==> ((#[trigger] level.block_at(i, j)) is Wall
                        ==> 1 <= level.block_at(i, j)->0 <= 3),
                out_row@.len() == x,
                forall|i: int|
                    0 <= i < x ==> LevelBlock::from_digit_spec(#[trigger] out_row@[i]) == Some(
                        level.block_at(i, y as int),
                    ),
            decreases width - x,
        {
            let block = self_block(level, x, y);
            out_row.push(block.to_digit());
            x += 1;
        }
        rows.push(out_row);
        y += 1;
    }
    rows
}

/// Reads one block out of a well-formed level.
fn self_block(level: &Level, x: usize, y: usize) -> (b: LevelBlock)
    requires
        level.grid_wf(),
        level.in_bounds(x as int, y as int),
    ensures
        b == level.block_at(x as int, y as int),
{
    level.grid[y][x]
}


impl LevelSprite {
    /// Spawns a sprite at `(x, y)` with its grid cell freshly cached.
    pub fn new(x: i64, y: i64, sprite: usize, is_static: bool, level: &Level) -> (s: LevelSprite)
        requires
            level.grid_wf(),
            abs_int(x as int) <= MAX_WORLD_POS,
            abs_int(y as int) <= MAX_WORLD_POS,
        ensures
            s.pos == (Vec2 { x, y }),
            s.distance_to_player == 0,
            (s.coords.x as int, s.coords.y as int) == level.coord_of(x as int, y as int),
            s.is_static == is_static,
            s.sprite == sprite,
    {
        let pos = Vec2 { x, y };
        LevelSprite {
            pos,
            sprite,
            distance_to_player: 0,
            is_static,
            coords: level.pos_to_coords(pos),
        }
    }

    /// Recomputes the cached grid cell from the position; a static
    /// sprite's cell is only recomputed when forced.
    pub fn update_cell(&mut self, level: &Level, force: bool)
        requires
            level.grid_wf(),
            abs_int(old(self).pos.x as int) <= MAX_WORLD_POS,
            abs_int(old(self).pos.y as int) <= MAX_WORLD_POS,
        ensures
            final(self).pos == old(self).pos,
            final(self).distance_to_player == old(self).distance_to_player,
            final(self).is_static == old(self).is_static,
            final(self).sprite == old(self).sprite,
            !old(self).is_static || force ==> (final(self).coords.x as int,
            final(self).coords.y as int) == level.coord_of(
                old(self).pos.x as int,
                old(self).pos.y as int,
            ),
            old(self).is_static && !force ==> final(self).coords == old(self).coords,
    {
        if !self.is_static || force {
            self.coords = level.pos_to_coords(self.pos);
        }
    }
}

/// Recomputes every sprite's distance to the player: the floor of the
/// Euclidean distance between the sprite and `player_pos`.  Nothing else
/// about any sprite changes.
pub fn update_sprite_distances(level: &mut Level, player_pos: Vec2)
    requires
        abs_int(player_pos.x as int) <= MAX_WORLD_POS,
        abs_int(player_pos.y as int) <= MAX_WORLD_POS,
        forall|i: int|
            0 <= i < old(level).sprites@.len() ==> abs_int(
                (#[trigger] old(level).sprites@[i]).pos.x as int,
            ) <= MAX_WORLD_POS && abs_int(old(level).sprites@[i].pos.y as int) <= MAX_WORLD_POS,
    ensures
        final(level).grid == old(level).grid,
        final(level).tile_size == old(level).tile_size,
        final(level).sprites@.len() == old(level).sprites@.len(),
        forall|i: int|
            0 <= i < old(level).sprites@.len() ==> (#[trigger] final(level).sprites@[i]) == (
            LevelSprite {
                distance_to_player: crate::num::sqrt_floor(
                    crate::math::len_sq(
                        old(level).sprites@[i].pos.x - player_pos.x,
                        old(level).sprites@[i].pos.y - player_pos.y,
                    ) as nat,
                ) as i64,
                ..old(level).sprites@[i]
            }),
        forall|i: int|
            0 <= i < final(level).sprites@.len() ==> (#[trigger] final(level).sprites@[i]).distance_to_player >= 0,
{
    let n = level.sprites.len();
    let mut i: usize = 0;
    while i < n
        invariant
            0 <= i <= n,
            n == old(level).sprites@.len(),
            level.grid == old(level).grid,
            level.tile_size == old(level).tile_size,
            level.sprites@.len() == n,
            abs_int(player_pos.x as int) <= MAX_WORLD_POS,
            abs_int(player_pos.y as int) <= MAX_WORLD_POS,
            forall|j: int|
                0 <= j < n ==> abs_int((#[trigger] old(level).sprites@[j]).pos.x as int)
                    <= MAX_WORLD_POS && abs_int(old(level).sprites@[j].pos.y as int)
                    <= MAX_WORLD_POS,
            forall|j: int|
                i <= j < n ==> #[trigger] level.sprites@[j] == old(level).sprites@[j],
            forall|j: int|
                0 <= j < i ==> (#[trigger] level.sprites@[j]) == (LevelSprite {
                    distance_to_player: crate::num::sqrt_floor(
                        crate::math::len_sq(
                            old(level).sprites@[j].pos.x - player_pos.x,
                            old(level).sprites@[j].pos.y - player_pos.y,
                        ) as nat,
                    ) as i64,
                    ..old(level).sprites@[j]
                }),
            forall|j: int|
                0 <= j < i ==> (#[trigger] level.sprites@[j]).distance_to_player >= 0,
        decreases n - i,
    {
        let p = level.sprites[i].pos;
        let d = crate::math::distance(player_pos, p);
        proof {
            crate::num::lemma_sqrt_floor_bounds(
                crate::math::len_sq(p.x - player_pos.x, p.y - player_pos.y) as nat,
            );
        }
        level.sprites[i].distance_to_player = d;
        i += 1;
    }
}

/// Back-to-front order: distances never increase along the sequence, so
/// later (nearer) sprites paint over earlier (farther) ones.
pub open spec fn sorted_back_to_front(s: Seq<LevelSprite>) -> bool {
    forall|i: int, j: int|
        0 <= i <= j < s.len() ==> (#[trigger] s[i]).distance_to_player >= (
        #[trigger] s[j]).distance_to_player
}

/// Sorts the level's sprites by distance to the player, farthest first,
/// keeping exactly the same sprites.
#[verifier::loop_isolation(false)]
pub fn sort_sprites_by_distance(level: &mut Level)
    ensures
        final(level).grid == old(level).grid,
        final(level).tile_size == old(level).tile_size,
        sorted_back_to_front(final(level).sprites@),
        final(level).sprites@.to_multiset() == old(level).sprites@.to_multiset(),
        final(level).sprites@.len() == old(level).sprites@.len(),
        forall|x: LevelSprite|
            final(level).sprites@.contains(x) ==> old(level).sprites@.contains(x),
{
    broadcast use vstd::seq_lib::group_to_multiset_ensures;

    let mut rest: Vec<LevelSprite> = Vec::new();
    let mut c: usize = 0;
    while c < level.sprites.len()
        invariant
            0 <= c <= level.sprites@.len(),
            level == old(level),
            rest@ == level.sprites@.subrange(0, c as int),
        decreases level.sprites@.len() - c,
    {
        rest.push(level.sprites[c]);
        proof {
            assert(rest@ =~= level.sprites@.subrange(0, c + 1));
        }
        c += 1;
    }
    proof {
        assert(rest@ =~= level.sprites@);
    }
    let ghost all = rest@.to_multiset();
    let mut out: Vec<LevelSprite> = Vec::new();
    while rest.len() > 0
        invariant
            out@.to_multiset().add(rest@.to_multiset()) =~= all,
            out@.len() + rest@.len() == old(level).sprites@.len(),
            sorted_back_to_front(out@),
            forall|i: int, j: int|
                0 <= i < out@.len() && 0 <= j < rest@.len() ==> (
                #[trigger] out@[i]).distance_to_player >= (#[trigger] rest@[j]).distance_to_player,
        decreases rest@.len(),
    {
        let mut best: usize = 0;
        let mut m: usize = 1;
        while m < rest.len()
            invariant
                0 <= best < rest@.len(),
                0 < m <= rest@.len(),
                forall|j: int|
                    0 <= j < m ==> (#[trigger] rest@[j]).distance_to_player
                        <= rest@[best as int].distance_to_player,
            decreases rest@.len() - m,
        {
            if rest[m].distance_to_player > rest[best].distance_to_player {
                best = m;
            }
            m += 1;
        }
        let s = rest.remove(best);
        out.push(s);
        proof {
            assert(out@.to_multiset().add(rest@.to_multiset()) =~= all);
        }
    }
    level.sprites = out;
    proof {
        assert(level.sprites@.to_multiset() =~= all) by {
            assert(rest@.to_multiset() =~= vstd::multiset::Multiset::empty());
        }
        assert forall|x: LevelSprite| level.sprites@.contains(x) implies old(
            level,
        ).sprites@.contains(x) by {
            assert(level.sprites@.to_multiset().count(x) > 0);
            assert(old(level).sprites@.to_multiset().count(x) > 0);
        }
    }
}

/// The built-in demo level: an eleven-row walled room with a few inner
/// wall runs, a tile size of thirty-two subunits, and five static
/// sprites.
#[verifier::rlimit(100)]
pub fn create_level() -> (r: Level)
    ensures
        r.grid_wf(),
        r.tile_size == 32,
        r.sprites@.len() == 5,
        forall|i: int| 0 <= i < 5 ==> (#[trigger] r.sprites@[i]).is_static,
{
    let rows: Vec<Vec<u8>> = vec![
        vec![1, 1, 1, 1, 1, 1, 1, 1, 1, 1, 1, 1, 1, 1, 1],
        vec![1, 0, 0, 1, 1, 0, 0, 0, 0, 0, 0, 0, 0, 0, 1],
        vec![1, 0, 0, 1, 0, 0, 0, 0, 0, 0, 0, 0, 0, 0, 1],
        vec![1, 0, 0, 1, 0, 0, 0, 0, 2, 2, 2, 0, 0, 0, 1],
        vec![1, 0, 0, 1, 1, 0, 0, 0, 0, 0, 2, 0, 0, 0, 1],
        vec![1, 0, 0, 0, 0, 0, 0, 0, 0, 0, 2, 0, 0, 0, 1],
        vec![1, 0, 2, 0, 0, 0, 0, 2, 0, 0, 0, 0, 0, 0, 1],
        vec![1, 0, 3, 1, 0, 0, 0, 3, 0, 0, 0, 0, 0, 0, 1],
        vec![1, 0, 0, 0, 0, 0, 0, 3, 0, 0, 0, 0, 3, 3, 1],
        vec![1, 0, 0, 0, 0, 0, 0, 0, 0, 0, 0, 0, 0, 0, 1],
        vec![1, 1, 1, 1, 1, 1, 1, 1, 1, 1, 1, 1, 1, 1, 1],
    ];
    let parsed = level_from_digit_rows(&rows, 32);
    let mut level = match parsed {
        Ok(l) => l,
        Err(_) => {
            // unreachable: the rows above are a valid digit grid
            let mut wall_row: Vec<LevelBlock> = Vec::new();
            wall_row.push(LevelBlock::Wall(1));
            let mut grid: Vec<Vec<LevelBlock>> = Vec::new();
            grid.push(wall_row);
            Level { grid, tile_size: 32, sprites: Vec::new() }
        },
    };
    let s0 = LevelSprite::new(60, 33, 4, true, &level);
    level.sprites.push(s0);
    let s1 = LevelSprite::new(-80, -78, 4, true, &level);
    level.sprites.push(s1);
    let s2 = LevelSprite::new(-180, 0, 3, true, &level);
    level.sprites.push(s2);
    let s3 = LevelSprite::new(-120, 95, 1, true, &level);
    level.sprites.push(s3);
    let s4 = LevelSprite::new(134, -50, 0, true, &level);
    level.sprites.push(s4);
    level
}

} // verus!
