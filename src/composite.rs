//! The compositor: blends the outline colour over the scene by a coverage
//! that falls off with the distance from each pixel to its flood seed.
//!
//! Distances and widths are fixed-point, in `1 / SUBPIXELS` pixel; coverage
//! runs from 0 (scene only) to `FULL_COVERAGE` (outline colour only).

use crate::components::{OutlineShaderSettings, Rgba, SUBPIXELS};
use crate::flood::dist2;
use crate::grid::{pixel_at, Pixel};
use vstd::prelude::*;

verus! {

/// Coverage of a pixel that the outline fully covers.
pub const FULL_COVERAGE: u32 = 255;

/// Half-width of the band over which coverage falls from full to none: one
/// pixel.
pub const ANTIALIAS_BAND: u32 = 256;

/// Whether `r` is the integer square root of `n`, rounded down.
pub open spec fn is_floor_sqrt(n: nat, r: nat) -> bool {
    r * r <= n < (r + 1) * (r + 1)
}

/// The distance, in `1 / SUBPIXELS` pixel and rounded down, that spans a
/// squared distance of `d2` whole pixels.
pub open spec fn fixed_distance(d2: nat) -> nat {
    choose|r: nat| #[trigger] is_floor_sqrt(d2 * (SUBPIXELS * SUBPIXELS) as nat, r)
}

/// Coverage at distance `d` from the seed for an outline of width `w` with
/// an antialiasing band of `band` on either side of the edge: full up to
/// `w - band`, none from `w + band` on, linear in between (rounded down).
pub open spec fn coverage(d: int, w: int, band: int) -> int {
    if band == 0 {
        if d <= w {
            FULL_COVERAGE as int
        } else {
            0
        }
    } else if d <= w - band {
        FULL_COVERAGE as int
    } else if d >= w + band {
        0
    } else {
        (w + band - d) * FULL_COVERAGE / (2 * band)
    }
}

/// The coverage that the compositor applies at pixel `(x, y)`: none where
/// outlines are disabled, outside the region of interest, on the silhouette
/// itself, or where the pixel has no seed; elsewhere the distance falloff,
/// scaled by the outline colour's alpha.
pub open spec fn pixel_coverage(
    settings: OutlineShaderSettings,
    seed: Option<Pixel>,
    in_region: bool,
    on_silhouette: bool,
    x: int,
    y: int,
) -> int {
    if !settings.enabled || !in_region || on_silhouette {
        0
    } else {
        match seed {
            None => 0,
            Some(s) => coverage(
                fixed_distance(dist2(s, x, y) as nat) as int,
                settings.width as int,
                ANTIALIAS_BAND as int,
            ) * settings.color.a / FULL_COVERAGE as int,
        }
    }
}

/// One channel of `lerp(scene, outline, c / FULL_COVERAGE)`, rounded down.
pub open spec fn mix(scene: u8, outline: u8, c: int) -> u8 {
    ((scene * (FULL_COVERAGE - c) + outline * c) / FULL_COVERAGE as int) as u8
}

/// The scene colour blended towards the outline colour by coverage `c`.
pub open spec fn blend(scene: Rgba, outline: Rgba, c: int) -> Rgba {
    Rgba {
        r: mix(scene.r, outline.r, c),
        g: mix(scene.g, outline.g, c),
        b: mix(scene.b, outline.b, c),
        a: mix(scene.a, outline.a, c),
    }
}

/// The composited colour of buffer index `i`.
pub open spec fn composited(
    scene: Seq<Rgba>,
    seeds: Seq<Option<Pixel>>,
    roi: Seq<bool>,
    sil: Seq<bool>,
    w: int,
    settings: OutlineShaderSettings,
    i: int,
) -> Rgba {
    blend(
        scene[i],
        settings.color,
        pixel_coverage(settings, seeds[i], roi[i], sil[i], i % w, i / w),
    )
}

/// The floor of the square root of `n`.
pub fn floor_sqrt(n: u128) -> (r: u64)
    requires
        n < 0x1_0000_0000_0000_0000_0000_0000,
    ensures
        is_floor_sqrt(n as nat, r as nat),
{
    let mut lo: u128 = 0;
    let mut hi: u128 = 0x1_0000_0000_0000;
    assert(hi * hi == 0x1_0000_0000_0000_0000_0000_0000) by (nonlinear_arith)
        requires
            hi == 0x1_0000_0000_0000,
    ;
    while hi - lo > 1
        invariant
            lo < hi <= 0x1_0000_0000_0000,
            lo * lo <= n < hi * hi,
        decreases hi - lo,
    {
        let mid = lo + (hi - lo) / 2;
        assert(mid * mid <= 0x1_0000_0000_0000_0000_0000_0000) by (nonlinear_arith)
            requires
                mid <= 0x1_0000_0000_0000,
        ;
        if mid * mid <= n {
            lo = mid;
        } else {
            hi = mid;
        }
    }
    lo as u64
}

proof fn lemma_floor_sqrt_unique(n: nat, r: nat, q: nat)
    requires
        is_floor_sqrt(n, r),
        is_floor_sqrt(n, q),
    ensures
        r == q,
{
    if r < q {
        assert((r + 1) * (r + 1) <= q * q) by (nonlinear_arith)
            requires
                r + 1 <= q,
        ;
    } else if q < r {
        assert((q + 1) * (q + 1) <= r * r) by (nonlinear_arith)
            requires
                q + 1 <= r,
        ;
    }
}

/// The fixed-point distance that spans squared distance `d2`.
pub fn distance_of(d2: u128) -> (r: u64)
    requires
        d2 < 0x2_0000_0000_0000_0000,
    ensures
        r == fixed_distance(d2 as nat),
{
    assert(d2 * 65536 < 0x1_0000_0000_0000_0000_0000_0000) by (nonlinear_arith)
        requires
            d2 < 0x2_0000_0000_0000_0000,
    ;
    let n: u128 = d2 * ((SUBPIXELS as u128) * (SUBPIXELS as u128));
    let r = floor_sqrt(n);
    proof {
        let q = fixed_distance(d2 as nat);
        assert(is_floor_sqrt((d2 as nat) * ((SUBPIXELS * SUBPIXELS) as nat), r as nat));
        lemma_floor_sqrt_unique((d2 as nat) * ((SUBPIXELS * SUBPIXELS) as nat), r as nat, q);
    }
    r
}

/// Coverage at distance `d` for an outline of width `width` and an
/// antialiasing band of `band`, all in `1 / SUBPIXELS` pixel.
pub fn outline_coverage(d: u64, width: u32, band: u32) -> (r: u32)
    ensures
        r == coverage(d as int, width as int, band as int),
        r <= FULL_COVERAGE,
{
    let d = d as u128;
    let w = width as u128;
    let b = band as u128;
    if b == 0 {
        if d <= w {
            FULL_COVERAGE
        } else {
            0
        }
    } else if d + b <= w {
        FULL_COVERAGE
    } else if d >= w + b {
        0
    } else {
        let c = (w + b - d) * (FULL_COVERAGE as u128) / (2 * b);
        assert(c <= FULL_COVERAGE) by (nonlinear_arith)
            requires
                b > 0,
                0 < w + b - d < 2 * b,
                c == (w + b - d) * 255 / (2 * b),
        ;
        c as u32
    }
}

/// One channel blended by coverage `c`.
fn mix_channel(scene: u8, outline: u8, c: u32) -> (r: u8)
    requires
        c <= FULL_COVERAGE,
    ensures
        r == mix(scene, outline, c as int),
{
    let s = scene as u32;
    let o = outline as u32;
    assert(s * (255 - c) + o * c <= 255 * 255) by (nonlinear_arith)
        requires
            c <= 255,
            s <= 255,
            o <= 255,
    ;
    let v: u32 = s * (FULL_COVERAGE - c) + o * c;
    (v / FULL_COVERAGE) as u8
}

/// The composited colour of one pixel.
pub fn composite_pixel(
    scene: Rgba,
    seed: Option<Pixel>,
    in_region: bool,
    on_silhouette: bool,
    x: u32,
    y: u32,
    settings: &OutlineShaderSettings,
) -> (r: Rgba)
    ensures
        r == blend(scene, settings.color, pixel_coverage(*settings, seed, in_region, on_silhouette, x as int, y as int)),
{
    let c: u32 = if !settings.enabled || !in_region || on_silhouette {
        0
    } else {
        match seed {
            None => 0,
            Some(s) => {
                let d2 = crate::flood::distance2(s, x, y);
                let d = distance_of(d2);
                let f = outline_coverage(d, settings.width, ANTIALIAS_BAND);
                let a = settings.color.a as u32;
                assert(f * a / 255 <= 255) by (nonlinear_arith)
                    requires
                        f <= 255,
                        a <= 255,
                ;
                f * a / FULL_COVERAGE
            },
        }
    };
    Rgba {
        r: mix_channel(scene.r, settings.color.r, c),
        g: mix_channel(scene.g, settings.color.g, c),
        b: mix_channel(scene.b, settings.color.b, c),
        a: mix_channel(scene.a, settings.color.a, c),
    }
}

/// Composites the outline over the scene: each pixel is blended towards the
/// outline colour by its coverage.
pub fn composite(
    scene: &Vec<Rgba>,
    seeds: &Vec<Option<Pixel>>,
    roi: &Vec<bool>,
    silhouette: &Vec<bool>,
    width: u32,
    height: u32,
    settings: &OutlineShaderSettings,
) -> (r: Vec<Rgba>)
    requires
        scene@.len() == width * height,
        seeds@.len() == width * height,
        roi@.len() == width * height,
        silhouette@.len() == width * height,
    ensures
        r@ == Seq::new(
            (width * height) as nat,
            |i: int| composited(scene@, seeds@, roi@, silhouette@, width as int, *settings, i),
        ),
{
    let n: usize = scene.len();
    let mut out: Vec<Rgba> = Vec::new();
    let mut i: usize = 0;
    while i < n
        invariant
            n == width * height,
            scene@.len() == n,
            seeds@.len() == n,
            roi@.len() == n,
            silhouette@.len() == n,
            i <= n,
            out@.len() == i,
            forall|j: int|
                0 <= j < i ==> out@[j] == composited(
                    scene@,
                    seeds@,
                    roi@,
                    silhouette@,
                    width as int,
                    *settings,
                    j,
                ),
        decreases n - i,
    {
        let p = pixel_at(width, height, i);
        let c = composite_pixel(scene[i], seeds[i], roi[i], silhouette[i], p.x, p.y, settings);
        out.push(c);
        i = i + 1;
    }
    proof {
        assert(out@ =~= Seq::new(
            (width * height) as nat,
            |i: int| composited(scene@, seeds@, roi@, silhouette@, width as int, *settings, i),
        ));
    }
    out
}

/// Blending by zero coverage leaves the scene colour as it is.
pub proof fn lemma_blend_zero(scene: Rgba, outline: Rgba)
    ensures
        blend(scene, outline, 0) == scene,
{
}

/// Outside the region of interest the compositor passes the scene colour
/// through and never reads the seed buffer: whatever two seed buffers hold
/// there, a pixel outside the region composites to its scene colour.
pub proof fn lemma_outside_region_passes_through(
    scene: Seq<Rgba>,
    seeds: Seq<Option<Pixel>>,
    other: Seq<Option<Pixel>>,
    roi: Seq<bool>,
    sil: Seq<bool>,
    w: int,
    settings: OutlineShaderSettings,
    i: int,
)
    requires
        !roi[i],
    ensures
        composited(scene, seeds, roi, sil, w, settings, i) == scene[i],
        composited(scene, seeds, roi, sil, w, settings, i) == composited(
            scene,
            other,
            roi,
            sil,
            w,
            settings,
            i,
        ),
{
    lemma_blend_zero(scene[i], settings.color);
}

/// At a distance equal to the outline width the falloff is at its midpoint:
/// half of full coverage, rounded down.
pub proof fn lemma_coverage_midpoint(w: int, band: int)
    requires
        band > 0,
    ensures
        coverage(w, w, band) == FULL_COVERAGE / 2,
{
    assert((band * 255) / (2 * band) == 127) by (nonlinear_arith)
        requires
            band > 0,
    ;
}

/// The outline never covers the silhouette itself: a silhouette pixel gets
/// no coverage, even at distance 0 from its seed, and keeps its scene colour.
pub proof fn lemma_silhouette_not_covered(
    scene: Rgba,
    settings: OutlineShaderSettings,
    seed: Option<Pixel>,
    in_region: bool,
    x: int,
    y: int,
)
    ensures
        pixel_coverage(settings, seed, in_region, true, x, y) == 0,
        blend(scene, settings.color, pixel_coverage(settings, seed, in_region, true, x, y)) == scene,
{
    lemma_blend_zero(scene, settings.color);
}

} // verus!
