//! Row-major pixel grids: a buffer of `width * height` cells, the cell of
//! pixel `(x, y)` at index `y * width + x`.

use vstd::prelude::*;

verus! {

/// A pixel position.
#[derive(Clone, Copy, Debug, PartialEq, Eq, Structural)]
pub struct Pixel {
    pub x: u32,
    pub y: u32,
}

/// The pixel size of a buffer or a render target.
#[derive(Clone, Copy, Debug, PartialEq, Eq, Structural)]
pub struct Extent {
    pub width: u32,
    pub height: u32,
}

/// The cell index of pixel `(x, y)` in a grid `w` cells wide.
pub open spec fn cell(w: int, x: int, y: int) -> int {
    y * w + x
}

/// Whether a grid of `w` by `h` cells can be indexed by `usize`.
pub open spec fn grid_fits(w: nat, h: nat) -> bool {
    w * h <= usize::MAX
}

/// Whether `(x, y)` lies inside a grid of `w` by `h` cells.
pub open spec fn in_grid(w: int, h: int, x: int, y: int) -> bool {
    0 <= x < w && 0 <= y < h
}

/// The cell of an in-grid pixel lies in the buffer, and gives the pixel back.
pub proof fn lemma_cell_in_range(w: int, h: int, x: int, y: int)
    requires
        in_grid(w, h, x, y),
    ensures
        0 <= cell(w, x, y) < w * h,
        cell(w, x, y) % w == x,
        cell(w, x, y) / w == y,
{
    assert(0 <= y * w + x < w * h) by (nonlinear_arith)
        requires
            0 <= x < w,
            0 <= y < h,
    ;
    vstd::arithmetic::div_mod::lemma_fundamental_div_mod_converse(y * w + x, w, y, x);
}

/// Every buffer index is the cell of the pixel `(i % w, i / w)`.
pub proof fn lemma_index_to_pixel(w: int, h: int, i: int)
    requires
        0 <= i < w * h,
        w > 0,
    ensures
        in_grid(w, h, i % w, i / w),
        cell(w, i % w, i / w) == i,
{
    vstd::arithmetic::div_mod::lemma_fundamental_div_mod(i, w);
    assert(i / w < h) by (nonlinear_arith)
        requires
            0 <= i < w * h,
            w > 0,
            i == w * (i / w) + i % w,
            0 <= i % w < w,
    ;
    assert(i / w >= 0) by (nonlinear_arith)
        requires
            0 <= i,
            w > 0,
    ;
    assert(cell(w, i % w, i / w) == (i / w) * w + i % w);
    assert((i / w) * w == w * (i / w)) by (nonlinear_arith);
}

/// The buffer index of an in-grid pixel.
pub fn cell_index(width: u32, height: u32, x: u32, y: u32) -> (r: usize)
    requires
        grid_fits(width as nat, height as nat),
        x < width,
        y < height,
    ensures
        r == cell(width as int, x as int, y as int),
        r < width * height,
{
    proof {
        lemma_cell_in_range(width as int, height as int, x as int, y as int);
    }
    (y as usize) * (width as usize) + (x as usize)
}

/// The pixel at buffer index `i`.
pub fn pixel_at(width: u32, height: u32, i: usize) -> (r: Pixel)
    requires
        i < width * height,
    ensures
        r.x == (i as int) % (width as int),
        r.y == (i as int) / (width as int),
        in_grid(width as int, height as int, r.x as int, r.y as int),
        cell(width as int, r.x as int, r.y as int) == i,
{
    proof {
        assert(width > 0) by (nonlinear_arith)
            requires
                i < width * height,
                i >= 0,
        ;
        lemma_index_to_pixel(width as int, height as int, i as int);
    }
    Pixel { x: (i % (width as usize)) as u32, y: (i / (width as usize)) as u32 }
}

} // verus!
