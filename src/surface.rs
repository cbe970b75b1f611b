use vstd::prelude::*;

use vstd::arithmetic::div_mod::{lemma_div_pos_is_pos, lemma_fundamental_div_mod, lemma_mod_bound};

use crate::rgbcolor::RGBColor;

verus! {

/// What a surface is: a rectangle of pixels, stored row by row, that sits at
/// an offset inside a larger image.
pub struct SurfaceView {
    pub x_offset: nat,
    pub y_offset: nat,
    pub width: nat,
    pub height: nat,
    pub pixels: Seq<RGBColor>,
}

impl SurfaceView {
    /// Exactly one pixel for each column of each row.
    pub open spec fn wf(self) -> bool {
        self.pixels.len() == self.width * self.height
    }

    pub open spec fn contains(self, x: int, y: int) -> bool {
        0 <= x < self.width && 0 <= y < self.height
    }

    /// Row-major position of the pixel in column `x` of row `y`.
    pub open spec fn index(self, x: int, y: int) -> int {
        x + y * self.width
    }

    pub open spec fn pixel(self, x: int, y: int) -> RGBColor {
        self.pixels[self.index(x, y)]
    }

    /// The same surface with the pixel at `(x, y)` replaced by `c`.
    pub open spec fn with_pixel(self, x: int, y: int, c: RGBColor) -> SurfaceView {
        SurfaceView { pixels: self.pixels.update(self.index(x, y), c), ..self }
    }

    /// Number of the tile's columns that land inside this surface.
    pub open spec fn cols_from(self, tile: SurfaceView) -> int {
        if tile.width < self.width - tile.x_offset {
            tile.width as int
        } else {
            self.width - tile.x_offset
        }
    }

    /// Number of the tile's rows that land inside this surface.
    pub open spec fn rows_from(self, tile: SurfaceView) -> int {
        if tile.height < self.height - tile.y_offset {
            tile.height as int
        } else {
            self.height - tile.y_offset
        }
    }

    /// Whether the pixel at global `(x, y)` of this surface is covered by `tile`.
    pub open spec fn covered_by(self, tile: SurfaceView, x: int, y: int) -> bool {
        &&& tile.x_offset <= x < tile.x_offset + self.cols_from(tile)
        &&& tile.y_offset <= y < tile.y_offset + self.rows_from(tile)
    }

    /// `self` is `dst` with `tile` copied in at the tile's offsets: every
    /// covered pixel comes from the tile, every other pixel is kept.
    pub open spec fn is_merge_of(self, dst: SurfaceView, tile: SurfaceView) -> bool {
        &&& self.x_offset == dst.x_offset
        &&& self.y_offset == dst.y_offset
        &&& self.width == dst.width
        &&& self.height == dst.height
        &&& self.wf()
        &&& forall|x: int, y: int|
            #![trigger self.pixel(x, y)]
            dst.contains(x, y) ==> self.pixel(x, y) == if dst.covered_by(tile, x, y) {
                tile.pixel(x - tile.x_offset, y - tile.y_offset)
            } else {
                dst.pixel(x, y)
            }
    }
}

/// A rectangular tile of an image, or the whole image with offsets zero.
pub struct Surface {
    x_offset: usize,
    y_offset: usize,
    width: usize,
    height: usize,
    buffer: Vec<RGBColor>,
}

impl View for Surface {
    type V = SurfaceView;

    closed spec fn view(&self) -> SurfaceView {
        SurfaceView {
            x_offset: self.x_offset as nat,
            y_offset: self.y_offset as nat,
            width: self.width as nat,
            height: self.height as nat,
            pixels: self.buffer@,
        }
    }
}

/// Distinct cells of a grid `w` wide have distinct row-major positions.
proof fn lemma_index_injective(w: int, x1: int, y1: int, x2: int, y2: int)
    requires
        0 <= x1 < w,
        0 <= x2 < w,
        0 <= y1,
        0 <= y2,
    ensures
        x1 + y1 * w == x2 + y2 * w <==> (x1 == x2 && y1 == y2),
{
    if y1 < y2 {
        assert(y1 * w + w <= y2 * w) by (nonlinear_arith)
            requires
                y1 < y2,
                0 <= w,
        ;
    } else if y2 < y1 {
        assert(y2 * w + w <= y1 * w) by (nonlinear_arith)
            requires
                y2 < y1,
                0 <= w,
        ;
    }
}

/// A cell of a `w` by `h` grid has a row-major position below `w * h`.
proof fn lemma_index_bound(w: int, h: int, x: int, y: int)
    requires
        0 <= x < w,
        0 <= y < h,
    ensures
        0 <= x + y * w < w * h,
{
    assert(0 <= y * w && y * w + w <= w * h) by (nonlinear_arith)
        requires
            0 <= y < h,
            0 <= w,
    ;
}

/// Merging a tile into a surface and reading the surface back at the global
/// position of a tile pixel gives exactly the color that was set on the tile
/// at its local position.
pub proof fn lemma_merge_read_back(
    dst: SurfaceView,
    tile: SurfaceView,
    x: int,
    y: int,
    c: RGBColor,
    merged: SurfaceView,
)
    requires
        dst.wf(),
        tile.wf(),
        tile.contains(x, y),
        dst.contains(tile.x_offset + x, tile.y_offset + y),
        merged.is_merge_of(dst, tile.with_pixel(x, y, c)),
    ensures
        merged.pixel(tile.x_offset + x, tile.y_offset + y) == c,
{
    lemma_index_bound(tile.width as int, tile.height as int, x, y);
    let painted = tile.with_pixel(x, y, c);
    assert(dst.covered_by(painted, tile.x_offset + x, tile.y_offset + y));
    assert(merged.pixel(tile.x_offset + x, tile.y_offset + y) == painted.pixel(x, y));
}

/// Every row-major position of a `w` by `h` grid is the position of a cell.
proof fn lemma_index_cell(w: int, h: int, i: int)
    requires
        0 <= i < w * h,
        0 <= w,
        0 <= h,
    ensures
        w > 0,
        0 <= i % w < w,
        0 <= i / w < h,
        i == i % w + (i / w) * w,
{
    if w == 0 {
        assert(w * h == 0);
    }
    lemma_fundamental_div_mod(i, w);
    lemma_mod_bound(i, w);
    lemma_div_pos_is_pos(i, w);
    let q = i / w;
    assert(w * q == q * w) by (nonlinear_arith);
    if i / w >= h {
        assert(w * (i / w) >= w * h) by (nonlinear_arith)
            requires
                i / w >= h,
                w > 0,
        ;
    }
}

/// Merging two tiles whose covered pixels are disjoint gives the same image
/// in either order.
pub proof fn lemma_disjoint_merges_commute(
    dst: SurfaceView,
    a: SurfaceView,
    b: SurfaceView,
    dst_a: SurfaceView,
    dst_ab: SurfaceView,
    dst_b: SurfaceView,
    dst_ba: SurfaceView,
)
    requires
        dst.wf(),
        forall|x: int, y: int| !(dst.covered_by(a, x, y) && dst.covered_by(b, x, y)),
        dst_a.is_merge_of(dst, a),
        dst_ab.is_merge_of(dst_a, b),
        dst_b.is_merge_of(dst, b),
        dst_ba.is_merge_of(dst_b, a),
    ensures
        dst_ab == dst_ba,
{
    assert forall|i: int| 0 <= i < dst_ab.pixels.len() implies dst_ab.pixels[i] == dst_ba.pixels[i] by {
        lemma_index_cell(dst.width as int, dst.height as int, i);
        let x = i % (dst.width as int);
        let y = i / (dst.width as int);
        assert(dst_ab.pixel(x, y) == dst_ba.pixel(x, y));
    }
    assert(dst_ab.pixels =~= dst_ba.pixels);
}

impl Surface {
    pub closed spec fn wf(&self) -> bool {
        &&& self@.wf()
        &&& self.buffer@.len() <= usize::MAX
    }

    /// A black surface of `width` by `height` pixels placed at the given offsets.
    pub fn new(x_offset: usize, y_offset: usize, width: usize, height: usize) -> (res: Self)
        requires
            width * height <= usize::MAX,
        ensures
            res.wf(),
            res@.x_offset == x_offset,
            res@.y_offset == y_offset,
            res@.width == width,
            res@.height == height,
            forall|i: int| 0 <= i < res@.pixels.len() ==> res@.pixels[i] == RGBColor::black(),
    {
        let len: usize = width * height;
        let mut buffer: Vec<RGBColor> = Vec::with_capacity(len);
        let mut i: usize = 0;
        while i < len
            invariant
                i <= len,
                buffer@.len() == i,
                forall|j: int| 0 <= j < i ==> buffer@[j] == RGBColor::black(),
            decreases len - i,
        {
            buffer.push(RGBColor { r: 0, g: 0, b: 0 });
            i = i + 1;
        }
        Self { x_offset, y_offset, width, height, buffer }
    }

    pub fn x_offset(&self) -> (r: usize)
        ensures
            r == self@.x_offset,
    {
        self.x_offset
    }

    pub fn y_offset(&self) -> (r: usize)
        ensures
            r == self@.y_offset,
    {
        self.y_offset
    }

    pub fn width(&self) -> (r: usize)
        ensures
            r == self@.width,
    {
        self.width
    }

    pub fn height(&self) -> (r: usize)
        ensures
            r == self@.height,
    {
        self.height
    }

    /// The color of the pixel in column `x` of row `y`, in local coordinates.
    pub fn get_color(&self, x: usize, y: usize) -> (r: RGBColor)
        requires
            self.wf(),
            self@.contains(x as int, y as int),
        ensures
            r == self@.pixel(x as int, y as int),
    {
        proof {
            lemma_index_bound(self.width as int, self.height as int, x as int, y as int);
        }
        self.buffer[x + y * self.width]
    }

    /// Paints the pixel in column `x` of row `y`, in local coordinates.
    pub fn set_color(&mut self, x: usize, y: usize, color: RGBColor)
        requires
            old(self).wf(),
            old(self)@.contains(x as int, y as int),
        ensures
            final(self).wf(),
            final(self)@ == old(self)@.with_pixel(x as int, y as int, color),
    {
        proof {
            lemma_index_bound(self.width as int, self.height as int, x as int, y as int);
        }
        self.buffer.set(x + y * self.width, color);
    }
    /// Copies the pixels of the tile `other` into this surface at the tile's
    /// offsets; the part of the tile that falls outside is dropped.
    pub fn merge(&mut self, other: &Surface)
        requires
            old(self).wf(),
            other.wf(),
            other@.x_offset <= old(self)@.width,
            other@.y_offset <= old(self)@.height,
        ensures
            final(self).wf(),
            final(self)@.is_merge_of(old(self)@, other@),
    {
        let ghost dst = self@;
        let x_len: usize = if other.width < self.width - other.x_offset {
            other.width
        } else {
            self.width - other.x_offset
        };
        let y_len: usize = if other.height < self.height - other.y_offset {
            other.height
        } else {
            self.height - other.y_offset
        };
        let mut src_y: usize = 0;
        while src_y < y_len
            invariant
                self.wf(),
                other.wf(),
                self@.x_offset == dst.x_offset,
                self@.y_offset == dst.y_offset,
                self@.width == dst.width,
                self@.height == dst.height,
                x_len == dst.cols_from(other@),
                y_len == dst.rows_from(other@),
                other@.x_offset + x_len <= dst.width,
                other@.y_offset + y_len <= dst.height,
                src_y <= y_len,
                forall|x: int, y: int|
                    #![trigger self@.pixel(x, y)]
                    dst.contains(x, y) ==> self@.pixel(x, y) == if dst.covered_by(other@, x, y)
                        && y < other@.y_offset + src_y {
                        other@.pixel(x - other@.x_offset, y - other@.y_offset)
                    } else {
                        dst.pixel(x, y)
                    },
            decreases y_len - src_y,
        {
            let dst_y = other.y_offset + src_y;
            let mut src_x: usize = 0;
            while src_x < x_len
                invariant
                    self.wf(),
                    other.wf(),
                    self@.x_offset == dst.x_offset,
                    self@.y_offset == dst.y_offset,
                    self@.width == dst.width,
                    self@.height == dst.height,
                    x_len == dst.cols_from(other@),
                    y_len == dst.rows_from(other@),
                    other@.x_offset + x_len <= dst.width,
                    other@.y_offset + y_len <= dst.height,
                    src_y < y_len,
                    dst_y == other@.y_offset + src_y,
                    src_x <= x_len,
                    forall|x: int, y: int|
                        #![trigger self@.pixel(x, y)]
                        dst.contains(x, y) ==> self@.pixel(x, y) == if dst.covered_by(other@, x, y)
                            && (y < dst_y || (y == dst_y && x < other@.x_offset + src_x)) {
                            other@.pixel(x - other@.x_offset, y - other@.y_offset)
                        } else {
                            dst.pixel(x, y)
                        },
                decreases x_len - src_x,
            {
                let dst_x = other.x_offset + src_x;
                proof {
                    lemma_index_bound(other.width as int, other.height as int, src_x as int, src_y as int);
                    lemma_index_bound(self.width as int, self.height as int, dst_x as int, dst_y as int);
                }
                let color = other.buffer[src_x + src_y * other.width];
                let ghost before = self@;
                self.buffer.set(dst_x + dst_y * self.width, color);
                proof {
                    assert forall|x: int, y: int| dst.contains(x, y) implies #[trigger] self@.pixel(x, y)
                        == if dst.covered_by(other@, x, y) && (y < dst_y || (y == dst_y && x
                        < other@.x_offset + src_x + 1)) {
                        other@.pixel(x - other@.x_offset, y - other@.y_offset)
                    } else {
                        dst.pixel(x, y)
                    } by {
                        lemma_index_injective(dst.width as int, x, y, dst_x as int, dst_y as int);
                        lemma_index_bound(dst.width as int, dst.height as int, x, y);
                        assert(before.pixel(x, y) == if dst.covered_by(other@, x, y) && (y < dst_y
                            || (y == dst_y && x < other@.x_offset + src_x)) {
                            other@.pixel(x - other@.x_offset, y - other@.y_offset)
                        } else {
                            dst.pixel(x, y)
                        });
                        if x == dst_x && y == dst_y {
                            assert(self@.pixel(x, y) == color);
                        } else {
                            assert(self@.pixel(x, y) == before.pixel(x, y));
                        }
                    }
                }
                src_x = src_x + 1;
            }
            src_y = src_y + 1;
        }
    }
}

} // verus!
