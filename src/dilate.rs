//! The dilation stage: a separable box dilation of the silhouette that
//! bounds all later work to pixels within the maximum outline width.

use crate::grid::{cell, cell_index, grid_fits, in_grid, pixel_at};
use vstd::prelude::*;

verus! {

/// The cell of pixel `(x, y)` in mask `m`, `w` cells wide.
pub open spec fn at(m: Seq<bool>, w: int, x: int, y: int) -> bool {
    m[cell(w, x, y)]
}

/// Some in-grid pixel of row `y` within `r` columns of `x` is set in `m`.
pub open spec fn near_in_row(m: Seq<bool>, w: int, x: int, y: int, r: int) -> bool {
    exists|nx: int| 0 <= nx < w && x - r <= nx <= x + r && #[trigger] at(m, w, nx, y)
}

/// Some in-grid pixel of column `x` within `r` rows of `y` is set in `m`.
pub open spec fn near_in_column(m: Seq<bool>, w: int, h: int, x: int, y: int, r: int) -> bool {
    exists|ny: int| 0 <= ny < h && y - r <= ny <= y + r && #[trigger] at(m, w, x, ny)
}

/// Some in-grid pixel within `r` of `(x, y)` along both axes is set in `m`.
pub open spec fn near_in_box(m: Seq<bool>, w: int, h: int, x: int, y: int, r: int) -> bool {
    exists|nx: int, ny: int|
        in_grid(w, h, nx, ny) && x - r <= nx <= x + r && y - r <= ny <= y + r && #[trigger] at(
            m,
            w,
            nx,
            ny,
        )
}

/// The horizontal pass applied to mask `m`.
pub open spec fn dilated_rows(m: Seq<bool>, w: int, h: int, r: int) -> Seq<bool> {
    Seq::new((w * h) as nat, |i: int| near_in_row(m, w, i % w, i / w, r))
}

/// The vertical pass applied to mask `m`.
pub open spec fn dilated_columns(m: Seq<bool>, w: int, h: int, r: int) -> Seq<bool> {
    Seq::new((w * h) as nat, |i: int| near_in_column(m, w, h, i % w, i / w, r))
}

/// The region of interest: the silhouette dilated by `r` along rows, then columns.
pub open spec fn region(sil: Seq<bool>, w: int, h: int, r: int) -> Seq<bool> {
    dilated_columns(dilated_rows(sil, w, h, r), w, h, r)
}

/// Whether `m` holds one cell for each pixel of a `w` by `h` grid.
pub open spec fn sized(m: Seq<bool>, w: nat, h: nat) -> bool {
    m.len() == w * h && grid_fits(w, h)
}

/// Horizontal dilation pass: a pixel is set when any pixel of its row within
/// `radius` columns is set in `mask`. Pixels beyond the edges count as unset.
pub fn dilate_horizontal(mask: &Vec<bool>, width: u32, height: u32, radius: u32) -> (r: Vec<bool>)
    requires
        sized(mask@, width as nat, height as nat),
    ensures
        r@ == dilated_rows(mask@, width as int, height as int, radius as int),
{
    let n: usize = (width as usize) * (height as usize);
    let mut out: Vec<bool> = Vec::new();
    let mut i: usize = 0;
    while i < n
        invariant
            n == width * height,
            sized(mask@, width as nat, height as nat),
            i <= n,
            out@.len() == i,
            forall|j: int|
                0 <= j < i ==> out@[j] == near_in_row(
                    mask@,
                    width as int,
                    j % (width as int),
                    j / (width as int),
                    radius as int,
                ),
        decreases n - i,
    {
        let p = pixel_at(width, height, i);
        let lo: u32 = if p.x >= radius {
            p.x - radius
        } else {
            0
        };
        let hi: u64 = if (p.x as u64) + (radius as u64) < (width as u64) {
            (p.x as u64) + (radius as u64) + 1
        } else {
            width as u64
        };
        let mut nx: u64 = lo as u64;
        let mut found = false;
        while nx < hi
            invariant
                sized(mask@, width as nat, height as nat),
                in_grid(width as int, height as int, p.x as int, p.y as int),
                lo <= nx <= hi <= width,
                lo == (if p.x >= radius { p.x - radius } else { 0 }),
                hi == (if p.x + radius < width { p.x + radius + 1 } else { width as int }),
                found <==> exists|k: int|
                    lo <= k < nx && #[trigger] at(mask@, width as int, k, p.y as int),
            decreases hi - nx,
        {
            let k = cell_index(width, height, nx as u32, p.y);
            assert(at(mask@, width as int, nx as int, p.y as int) == mask@[k as int]);
            if mask[k] {
                found = true;
            }
            nx = nx + 1;
        }
        proof {
            if found {
                let k = choose|k: int| lo <= k < nx && #[trigger] at(mask@, width as int, k, p.y as int);
                assert(0 <= k < width && p.x - radius <= k <= p.x + radius);
            } else {
                assert forall|k: int|
                    0 <= k < width && p.x - radius <= k <= p.x + radius implies !#[trigger] at(
                        mask@,
                        width as int,
                        k,
                        p.y as int,
                    ) by {
                    assert(lo <= k < nx);
                }
            }
        }
        out.push(found);
        i = i + 1;
    }
    proof {
        assert(out@ =~= dilated_rows(mask@, width as int, height as int, radius as int));
    }
    out
}

/// Vertical dilation pass: a pixel is set when any pixel of its column within
/// `radius` rows is set in `mask`. Pixels beyond the edges count as unset.
pub fn dilate_vertical(mask: &Vec<bool>, width: u32, height: u32, radius: u32) -> (r: Vec<bool>)
    requires
        sized(mask@, width as nat, height as nat),
    ensures
        r@ == dilated_columns(mask@, width as int, height as int, radius as int),
{
    let n: usize = (width as usize) * (height as usize);
    let mut out: Vec<bool> = Vec::new();
    let mut i: usize = 0;
    while i < n
        invariant
            n == width * height,
            sized(mask@, width as nat, height as nat),
            i <= n,
            out@.len() == i,
            forall|j: int|
                0 <= j < i ==> out@[j] == near_in_column(
                    mask@,
                    width as int,
                    height as int,
                    j % (width as int),
                    j / (width as int),
                    radius as int,
                ),
        decreases n - i,
    {
        let p = pixel_at(width, height, i);
        let lo: u32 = if p.y >= radius {
            p.y - radius
        } else {
            0
        };
        let hi: u64 = if (p.y as u64) + (radius as u64) < (height as u64) {
            (p.y as u64) + (radius as u64) + 1
        } else {
            height as u64
        };
        let mut ny: u64 = lo as u64;
        let mut found = false;
        while ny < hi
            invariant
                sized(mask@, width as nat, height as nat),
                in_grid(width as int, height as int, p.x as int, p.y as int),
                lo <= ny <= hi <= height,
                lo == (if p.y >= radius { p.y - radius } else { 0 }),
                hi == (if p.y + radius < height { p.y + radius + 1 } else { height as int }),
                found <==> exists|k: int|
                    lo <= k < ny && #[trigger] at(mask@, width as int, p.x as int, k),
            decreases hi - ny,
        {
            let k = cell_index(width, height, p.x, ny as u32);
            assert(at(mask@, width as int, p.x as int, ny as int) == mask@[k as int]);
            if mask[k] {
                found = true;
            }
            ny = ny + 1;
        }
        proof {
            if found {
                let k = choose|k: int| lo <= k < ny && #[trigger] at(mask@, width as int, p.x as int, k);
                assert(0 <= k < height && p.y - radius <= k <= p.y + radius);
            } else {
                assert forall|k: int|
                    0 <= k < height && p.y - radius <= k <= p.y + radius implies !#[trigger] at(
                        mask@,
                        width as int,
                        p.x as int,
                        k,
                    ) by {
                    assert(lo <= k < ny);
                }
            }
        }
        out.push(found);
        i = i + 1;
    }
    proof {
        assert(out@ =~= dilated_columns(mask@, width as int, height as int, radius as int));
    }
    out
}

/// The region-of-interest mask: the silhouette dilated by `max_width` along
/// rows into a first buffer, then along columns into the final mask.
pub fn region_of_interest(silhouette: &Vec<bool>, width: u32, height: u32, max_width: u32) -> (r:
    Vec<bool>)
    requires
        sized(silhouette@, width as nat, height as nat),
    ensures
        r@ == region(silhouette@, width as int, height as int, max_width as int),
        sized(r@, width as nat, height as nat),
{
    let rows = dilate_horizontal(silhouette, width, height, max_width);
    dilate_vertical(&rows, width, height, max_width)
}

/// The two separable passes together set exactly the pixels that have a
/// silhouette pixel within `r` along both axes; in particular every
/// silhouette pixel lies in the region of interest.
pub proof fn lemma_region_is_box(sil: Seq<bool>, w: int, h: int, r: int, x: int, y: int)
    requires
        sil.len() == w * h,
        in_grid(w, h, x, y),
        r >= 0,
    ensures
        at(region(sil, w, h, r), w, x, y) == near_in_box(sil, w, h, x, y, r),
        at(sil, w, x, y) ==> at(region(sil, w, h, r), w, x, y),
{
    let rows = dilated_rows(sil, w, h, r);
    crate::grid::lemma_cell_in_range(w, h, x, y);
    let i = cell(w, x, y);
    assert(at(region(sil, w, h, r), w, x, y) == near_in_column(rows, w, h, x, y, r));
    if near_in_column(rows, w, h, x, y, r) {
        let ny = choose|ny: int| 0 <= ny < h && y - r <= ny <= y + r && #[trigger] at(rows, w, x, ny);
        crate::grid::lemma_cell_in_range(w, h, x, ny);
        assert(near_in_row(sil, w, x, ny, r));
        let nx = choose|nx: int| 0 <= nx < w && x - r <= nx <= x + r && #[trigger] at(sil, w, nx, ny);
        assert(in_grid(w, h, nx, ny));
        assert(at(sil, w, nx, ny));
    }
    if near_in_box(sil, w, h, x, y, r) {
        let (nx, ny) = choose|nx: int, ny: int|
            in_grid(w, h, nx, ny) && x - r <= nx <= x + r && y - r <= ny <= y + r && #[trigger] at(
                sil,
                w,
                nx,
                ny,
            );
        crate::grid::lemma_cell_in_range(w, h, x, ny);
        assert(near_in_row(sil, w, x, ny, r));
        assert(at(rows, w, x, ny));
    }
    if at(sil, w, x, y) {
        assert(in_grid(w, h, x, y) && x - r <= x <= x + r && y - r <= y <= y + r && at(sil, w, x, y));
    }
}

} // verus!
