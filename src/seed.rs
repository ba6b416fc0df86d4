//! The seed initialiser: silhouette pixels inside the region of interest
//! seed themselves; every other pixel starts with no seed.

use crate::dilate::{at, lemma_region_is_box, region, sized};
use crate::grid::{cell, in_grid, lemma_cell_in_range, pixel_at, Pixel};
use vstd::prelude::*;

verus! {

/// The pixel at buffer index `i` of a grid `w` cells wide.
pub open spec fn pixel_of(w: int, i: int) -> Pixel {
    Pixel { x: (i % w) as u32, y: (i / w) as u32 }
}

/// The initial seed of buffer index `i`: the pixel itself where it is a
/// silhouette pixel inside the region of interest, no seed elsewhere.
pub open spec fn initial_seed(sil: Seq<bool>, roi: Seq<bool>, w: int, i: int) -> Option<Pixel> {
    if roi[i] && sil[i] {
        Some(pixel_of(w, i))
    } else {
        None
    }
}

/// The whole initial seed buffer.
pub open spec fn initial_seeds(sil: Seq<bool>, roi: Seq<bool>, w: int, h: int) -> Seq<Option<Pixel>> {
    Seq::new((w * h) as nat, |i: int| initial_seed(sil, roi, w, i))
}

/// Writes the initial seed buffer from the silhouette and the region of interest.
pub fn init_seeds(silhouette: &Vec<bool>, roi: &Vec<bool>, width: u32, height: u32) -> (r: Vec<
    Option<Pixel>,
>)
    requires
        sized(silhouette@, width as nat, height as nat),
        sized(roi@, width as nat, height as nat),
    ensures
        r@ == initial_seeds(silhouette@, roi@, width as int, height as int),
{
    let n: usize = (width as usize) * (height as usize);
    let mut out: Vec<Option<Pixel>> = Vec::new();
    let mut i: usize = 0;
    while i < n
        invariant
            n == width * height,
            sized(silhouette@, width as nat, height as nat),
            sized(roi@, width as nat, height as nat),
            i <= n,
            out@.len() == i,
            forall|j: int|
                0 <= j < i ==> out@[j] == initial_seed(silhouette@, roi@, width as int, j),
        decreases n - i,
    {
        if roi[i] && silhouette[i] {
            let p = pixel_at(width, height, i);
            out.push(Some(p));
        } else {
            out.push(None);
        }
        i = i + 1;
    }
    proof {
        assert(out@ =~= initial_seeds(silhouette@, roi@, width as int, height as int));
    }
    out
}

/// A buffer of `len` cells that hold no seed.
pub fn empty_seeds(len: usize) -> (r: Vec<Option<Pixel>>)
    ensures
        r@ == Seq::new(len as nat, |i: int| None::<Pixel>),
{
    let mut out: Vec<Option<Pixel>> = Vec::new();
    let mut i: usize = 0;
    while i < len
        invariant
            i <= len,
            out@.len() == i,
            forall|j: int| 0 <= j < i ==> out@[j] == None::<Pixel>,
        decreases len - i,
    {
        out.push(None);
        i = i + 1;
    }
    proof {
        assert(out@ =~= Seq::new(len as nat, |i: int| None::<Pixel>));
    }
    out
}

/// After initialisation over the region of interest that the dilation stage
/// derives from the silhouette, every silhouette pixel is its own seed.
pub proof fn lemma_silhouette_seeds_itself(sil: Seq<bool>, w: int, h: int, r: int, x: int, y: int)
    requires
        sil.len() == w * h,
        in_grid(w, h, x, y),
        r >= 0,
        at(sil, w, x, y),
    ensures
        initial_seeds(sil, region(sil, w, h, r), w, h)[cell(w, x, y)] == Some(
            Pixel { x: x as u32, y: y as u32 },
        ),
{
    lemma_region_is_box(sil, w, h, r, x, y);
    lemma_cell_in_range(w, h, x, y);
}

} // verus!
