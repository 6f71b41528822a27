//! Pixel rectangles and atlas layouts.

use bevy::image::TextureAtlasLayout;
use bevy::math::UVec2;
use vstd::prelude::*;

verus! {

/// A rectangle of pixels. `(min_x, min_y)` is its top-left corner and
/// `(max_x, max_y)` the corner below and right of its last pixel.
#[derive(Clone, Copy, Debug, PartialEq, Eq, Structural)]
pub struct PixelRect {
    pub min_x: u32,
    pub min_y: u32,
    pub max_x: u32,
    pub max_y: u32,
}

impl PixelRect {
    /// Number of pixel columns of the rectangle.
    pub open spec fn width(self) -> int {
        self.max_x - self.min_x
    }

    /// Number of pixel rows of the rectangle.
    pub open spec fn height(self) -> int {
        self.max_y - self.min_y
    }

    /// The rectangle has no pixel in common with `other`.
    pub open spec fn apart_from(self, other: PixelRect) -> bool {
        ||| self.max_x <= other.min_x
        ||| other.max_x <= self.min_x
        ||| self.max_y <= other.min_y
        ||| other.max_y <= self.min_y
    }
}

/// The areas of an atlas in which its textures lie, in index order.
#[derive(Debug, PartialEq, Eq)]
pub struct AtlasLayout {
    pub width: u32,
    pub height: u32,
    pub textures: Vec<PixelRect>,
}

/// The mathematical value of an [`AtlasLayout`].
pub struct AtlasLayoutView {
    pub width: int,
    pub height: int,
    pub textures: Seq<PixelRect>,
}

impl Clone for AtlasLayout {
    fn clone(&self) -> (copy: Self)
        ensures
            copy@ == self@,
    {
        let mut textures: Vec<PixelRect> = Vec::new();
        let mut i: usize = 0;
        while i < self.textures.len()
            invariant
                i <= self.textures.len(),
                textures@ == self.textures@.subrange(0, i as int),
            decreases self.textures.len() - i,
        {
            textures.push(self.textures[i]);
            i += 1;
        }
        assert(textures@ == self.textures@);
        AtlasLayout { width: self.width, height: self.height, textures }
    }
}

impl View for AtlasLayout {
    type V = AtlasLayoutView;

    open spec fn view(&self) -> AtlasLayoutView {
        AtlasLayoutView {
            width: self.width as int,
            height: self.height as int,
            textures: self.textures@,
        }
    }
}

/// A grid of equal tiles: `columns` by `rows` tiles of `tile_w` by `tile_h`
/// pixels, `pad_x` and `pad_y` pixels apart, the first one at
/// `(off_x, off_y)`.
pub struct Grid {
    pub tile_w: int,
    pub tile_h: int,
    pub columns: int,
    pub rows: int,
    pub pad_x: int,
    pub pad_y: int,
    pub off_x: int,
    pub off_y: int,
}

impl Grid {
    /// The grid that the arguments of [`AtlasLayout::from_grid`] describe.
    pub open spec fn of(
        tile_size: (u32, u32),
        columns: u32,
        rows: u32,
        padding: Option<(u32, u32)>,
        offset: Option<(u32, u32)>,
    ) -> Grid {
        let pad = match padding {
            Some(p) => p,
            None => (0u32, 0u32),
        };
        let off = match offset {
            Some(o) => o,
            None => (0u32, 0u32),
        };
        Grid {
            tile_w: tile_size.0 as int,
            tile_h: tile_size.1 as int,
            columns: columns as int,
            rows: rows as int,
            pad_x: pad.0 as int,
            pad_y: pad.1 as int,
            off_x: off.0 as int,
            off_y: off.1 as int,
        }
    }

    /// The horizontal gap that counts for the total width: there is none
    /// unless two tiles stand side by side.
    pub open spec fn gap_x(self) -> int {
        if self.columns >= 2 && self.rows >= 1 {
            self.pad_x
        } else {
            0
        }
    }

    /// The vertical gap that counts for the total height.
    pub open spec fn gap_y(self) -> int {
        if self.rows >= 2 {
            self.pad_y
        } else {
            0
        }
    }

    /// Width of the area that the tiles and the gaps between them cover.
    pub open spec fn width(self) -> int {
        (self.tile_w + self.gap_x()) * self.columns - self.gap_x()
    }

    /// Height of the area that the tiles and the gaps between them cover.
    pub open spec fn height(self) -> int {
        (self.tile_h + self.gap_y()) * self.rows - self.gap_y()
    }

    /// Left edge of the tiles in column `col`.
    pub open spec fn left(self, col: int) -> int {
        (self.tile_w + self.pad_x) * col + self.off_x
    }

    /// Top edge of the tiles in row `row`.
    pub open spec fn top(self, row: int) -> int {
        (self.tile_h + self.pad_y) * row + self.off_y
    }

    /// The tile in column `col` of row `row`.
    pub open spec fn tile(self, col: int, row: int) -> PixelRect {
        PixelRect {
            min_x: self.left(col) as u32,
            min_y: self.top(row) as u32,
            max_x: (self.left(col) + self.tile_w) as u32,
            max_y: (self.top(row) + self.tile_h) as u32,
        }
    }

    /// All tiles, row by row from the top, each row from the left.
    pub open spec fn tiles(self) -> Seq<PixelRect> {
        Seq::new(
            (self.rows * self.columns) as nat,
            |i: int| self.tile(i % self.columns, i / self.columns),
        )
    }

    /// Every coordinate that laying out the grid computes fits in 32 bits,
    /// and the tiles, of 16 bytes each, fit in a vector.
    pub open spec fn fits(self) -> bool {
        &&& (self.tile_w + self.gap_x()) * self.columns <= u32::MAX
        &&& (self.tile_h + self.gap_y()) * self.rows <= u32::MAX
        &&& self.columns >= 1 && self.rows >= 1 ==> {
            &&& self.left(self.columns - 1) + self.tile_w <= u32::MAX
            &&& self.top(self.rows - 1) + self.tile_h <= u32::MAX
        }
        &&& self.rows * self.columns * 16 <= isize::MAX
    }

    /// No size, count, gap or offset of the grid is negative.
    pub open spec fn natural(self) -> bool {
        &&& 0 <= self.tile_w && 0 <= self.tile_h
        &&& 0 <= self.columns && 0 <= self.rows
        &&& 0 <= self.pad_x && 0 <= self.pad_y
        &&& 0 <= self.off_x && 0 <= self.off_y
    }
}

/// Every tile of a grid that fits has the size of a tile and lies within the
/// area that the grid covers, which begins at the offset.
pub proof fn lemma_tile_inside(grid: Grid, col: int, row: int)
    requires
        grid.natural(),
        grid.fits(),
        0 <= col < grid.columns,
        0 <= row < grid.rows,
    ensures
        grid.tile(col, row).width() == grid.tile_w,
        grid.tile(col, row).height() == grid.tile_h,
        grid.off_x <= grid.tile(col, row).min_x,
        grid.off_y <= grid.tile(col, row).min_y,
        grid.tile(col, row).max_x <= grid.off_x + grid.width(),
        grid.tile(col, row).max_y <= grid.off_y + grid.height(),
{
    lemma_edge_inside(grid.tile_w, grid.pad_x, grid.gap_x(), grid.columns, col);
    lemma_edge_inside(grid.tile_h, grid.pad_y, grid.gap_y(), grid.rows, row);
}

/// Along one axis: tile `at` of `count` tiles begins at or after 0, ends
/// within the covered length, and no later than the last tile ends.
proof fn lemma_edge_inside(tile: int, pad: int, gap: int, count: int, at: int)
    requires
        0 <= tile,
        0 <= pad,
        0 <= at < count,
        gap == if count >= 2 { pad } else { 0 },
    ensures
        0 <= (tile + pad) * at,
        (tile + pad) * at + tile <= (tile + gap) * count - gap,
        (tile + pad) * at <= (tile + pad) * (count - 1),
{
    assert(0 <= (tile + pad) * at) by (nonlinear_arith)
        requires
            0 <= tile + pad,
            0 <= at,
    ;
    assert((tile + pad) * at <= (tile + pad) * (count - 1)) by (nonlinear_arith)
        requires
            0 <= tile + pad,
            at <= count - 1,
    ;
    if count >= 2 {
        assert((tile + pad) * (count - 1) + tile == (tile + pad) * count - pad)
            by (nonlinear_arith);
    } else {
        assert((tile + gap) * count == tile) by (nonlinear_arith)
            requires
                count == 1,
                gap == 0,
        ;
    }
}

/// Two tiles of a grid in different columns or rows have no pixel in common.
pub proof fn lemma_tiles_apart(grid: Grid, col_a: int, row_a: int, col_b: int, row_b: int)
    requires
        grid.natural(),
        grid.fits(),
        0 <= col_a < grid.columns,
        0 <= col_b < grid.columns,
        0 <= row_a < grid.rows,
        0 <= row_b < grid.rows,
        col_a != col_b || row_a != row_b,
    ensures
        grid.tile(col_a, row_a).apart_from(grid.tile(col_b, row_b)),
{
    lemma_edge_inside(grid.tile_w, grid.pad_x, grid.gap_x(), grid.columns, col_a);
    lemma_edge_inside(grid.tile_w, grid.pad_x, grid.gap_x(), grid.columns, col_b);
    lemma_edge_inside(grid.tile_h, grid.pad_y, grid.gap_y(), grid.rows, row_a);
    lemma_edge_inside(grid.tile_h, grid.pad_y, grid.gap_y(), grid.rows, row_b);
    if col_a < col_b {
        lemma_next_begins_later(grid.tile_w, grid.pad_x, col_a, col_b);
    } else if col_b < col_a {
        lemma_next_begins_later(grid.tile_w, grid.pad_x, col_b, col_a);
    } else if row_a < row_b {
        lemma_next_begins_later(grid.tile_h, grid.pad_y, row_a, row_b);
    } else {
        lemma_next_begins_later(grid.tile_h, grid.pad_y, row_b, row_a);
    }
}

/// Along one axis: a later tile begins no earlier than an earlier one ends.
proof fn lemma_next_begins_later(tile: int, pad: int, a: int, b: int)
    requires
        0 <= tile,
        0 <= pad,
        0 <= a < b,
    ensures
        (tile + pad) * a + tile <= (tile + pad) * b,
{
    assert((tile + pad) * (a + 1) <= (tile + pad) * b) by (nonlinear_arith)
        requires
            0 <= tile + pad,
            a + 1 <= b,
    ;
    assert((tile + pad) * (a + 1) == (tile + pad) * a + tile + pad) by (nonlinear_arith);
}

/// Calls `bevy::image::TextureAtlasLayout::from_grid` and copies the size and
/// the rectangles of what it returns. That function lays the tiles out row by
/// row; the contract states where it puts each one and the size it reports,
/// for the grids on which none of its additions and multiplications
/// overflows.
#[verifier::external_body]
fn bevy_from_grid(
    tile_size: (u32, u32),
    columns: u32,
    rows: u32,
    padding: Option<(u32, u32)>,
    offset: Option<(u32, u32)>,
) -> (layout: AtlasLayout)
    requires
        Grid::of(tile_size, columns, rows, padding, offset).fits(),
    ensures
        layout@.width == Grid::of(tile_size, columns, rows, padding, offset).width(),
        layout@.height == Grid::of(tile_size, columns, rows, padding, offset).height(),
        layout@.textures == Grid::of(tile_size, columns, rows, padding, offset).tiles(),
{
    let made = TextureAtlasLayout::from_grid(
        UVec2::new(tile_size.0, tile_size.1),
        columns,
        rows,
        padding.map(|p| UVec2::new(p.0, p.1)),
        offset.map(|p| UVec2::new(p.0, p.1)),
    );
    let textures = made.textures.iter().map(|r| PixelRect {
        min_x: r.min.x,
        min_y: r.min.y,
        max_x: r.max.x,
        max_y: r.max.y,
    }).collect();
    AtlasLayout { width: made.size.x, height: made.size.y, textures }
}

/// Whether `(tile + gap) * count` fits in 32 bits and, where `tiled`, whether
/// the far edge of the last of `count` tiles does.
fn axis_fits(tile: u32, gap: u32, pad: u32, count: u32, off: u32, tiled: bool) -> (ok: bool)
    ensures
        ok == {
            &&& (tile + gap) * count <= u32::MAX
            &&& tiled && count >= 1 ==> (tile + pad) * (count - 1) + off + tile <= u32::MAX
        },
{
    let limit: u128 = 0xffff_ffff;
    let span: u128 = tile as u128 + gap as u128;
    let stride: u128 = tile as u128 + pad as u128;
    let n: u128 = count as u128;
    assert(span * n <= 0x2_0000_0000 * 0x1_0000_0000) by (nonlinear_arith)
        requires
            0 <= span <= 0x2_0000_0000,
            0 <= n <= 0x1_0000_0000,
    ;
    if span * n > limit {
        return false;
    }
    if !tiled || count == 0 {
        return true;
    }
    let before: u128 = n - 1;
    assert(stride * before <= 0x2_0000_0000 * 0x1_0000_0000) by (nonlinear_arith)
        requires
            0 <= stride <= 0x2_0000_0000,
            0 <= before <= 0x1_0000_0000,
    ;
    stride * before + off as u128 + tile as u128 <= limit
}

impl AtlasLayout {
    /// Lays out a grid of `columns` by `rows` tiles of `tile_size` pixels,
    /// `padding` pixels apart, starting `offset` pixels from the top-left
    /// corner. The tiles are listed row by row from the top, each row from
    /// the left. Returns `None` where a coordinate of the grid would not fit
    /// in 32 bits, or its tiles not in a vector.
    pub fn from_grid(
        tile_size: (u32, u32),
        columns: u32,
        rows: u32,
        padding: Option<(u32, u32)>,
        offset: Option<(u32, u32)>,
    ) -> (made: Option<AtlasLayout>)
        ensures
            made is Some <==> Grid::of(tile_size, columns, rows, padding, offset).fits(),
            made matches Some(layout) ==> {
                let grid = Grid::of(tile_size, columns, rows, padding, offset);
                &&& layout@.width == grid.width()
                &&& layout@.height == grid.height()
                &&& layout@.textures == grid.tiles()
            },
    {
        let pad = match padding {
            Some(p) => p,
            None => (0u32, 0u32),
        };
        let off = match offset {
            Some(o) => o,
            None => (0u32, 0u32),
        };
        let gap_x: u32 = if columns >= 2 && rows >= 1 { pad.0 } else { 0 };
        let gap_y: u32 = if rows >= 2 { pad.1 } else { 0 };
        assert(rows * columns <= 0xffff_ffff * 0xffff_ffff) by (nonlinear_arith)
            requires
                0 <= rows <= 0xffff_ffff,
                0 <= columns <= 0xffff_ffff,
        ;
        let count: u64 = rows as u64 * columns as u64;
        if axis_fits(tile_size.0, gap_x, pad.0, columns, off.0, rows >= 1)
            && axis_fits(tile_size.1, gap_y, pad.1, rows, off.1, columns >= 1)
            && count <= isize::MAX as u64 / 16 {
            Some(bevy_from_grid(tile_size, columns, rows, padding, offset))
        } else {
            None
        }
    }
}

} // verus!
