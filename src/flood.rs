//! The flood propagator: each pass lets every pixel of the region of
//! interest adopt the nearest seed among nine candidates `step` pixels apart.
//!
//! Candidates are enumerated in row-major offset order: `k = 3 * (dy + 1) +
//! (dx + 1)` for offsets `dx, dy` in `{-1, 0, 1}` times the step, so the centre
//! is candidate 4. A candidate position is clamped to the grid. Among the
//! candidates that hold a seed, the one nearest to the pixel wins; of equally
//! near ones, the earliest.

use crate::grid::{cell, cell_index, in_grid, lemma_cell_in_range, pixel_at, Pixel};
use crate::schedule::{result_of, step_size};
use vstd::prelude::*;

verus! {

/// `v` clamped to `0..=hi`.
pub open spec fn clamp(v: int, hi: int) -> int {
    if v < 0 {
        0
    } else if v > hi {
        hi
    } else {
        v
    }
}

/// The horizontal offset sign of candidate `k`.
pub open spec fn offset_x(k: int) -> int {
    k % 3 - 1
}

/// The vertical offset sign of candidate `k`.
pub open spec fn offset_y(k: int) -> int {
    k / 3 - 1
}

/// The squared Euclidean distance from pixel `(x, y)` to seed `s`.
pub open spec fn dist2(s: Pixel, x: int, y: int) -> int {
    (s.x - x) * (s.x - x) + (s.y - y) * (s.y - y)
}

/// What candidate `k` of pixel `(x, y)` reads from `input`.
pub open spec fn candidate(
    input: Seq<Option<Pixel>>,
    w: int,
    h: int,
    x: int,
    y: int,
    step: int,
    k: int,
) -> Option<Pixel> {
    input[cell(w, clamp(x + offset_x(k) * step, w - 1), clamp(y + offset_y(k) * step, h - 1))]
}

/// The best of candidates `0..n`: the nearest seed, the earliest on ties.
pub open spec fn best_of(
    input: Seq<Option<Pixel>>,
    w: int,
    h: int,
    x: int,
    y: int,
    step: int,
    n: nat,
) -> Option<Pixel>
    decreases n,
{
    if n == 0 {
        None
    } else {
        let prev = best_of(input, w, h, x, y, step, (n - 1) as nat);
        match candidate(input, w, h, x, y, step, n - 1) {
            None => prev,
            Some(s) => match prev {
                None => Some(s),
                Some(b) => if dist2(s, x, y) < dist2(b, x, y) {
                    Some(s)
                } else {
                    prev
                },
            },
        }
    }
}

/// The seed that one pass writes for pixel `(x, y)`.
pub open spec fn flood_seed(
    input: Seq<Option<Pixel>>,
    w: int,
    h: int,
    x: int,
    y: int,
    step: int,
) -> Option<Pixel> {
    best_of(input, w, h, x, y, step, 9)
}

/// One pass: region pixels take their flood seed from `input`; the other
/// pixels of the output keep what `out` held.
pub open spec fn flooded(
    input: Seq<Option<Pixel>>,
    out: Seq<Option<Pixel>>,
    roi: Seq<bool>,
    w: int,
    h: int,
    step: int,
) -> Seq<Option<Pixel>> {
    Seq::new(
        out.len(),
        |i: int|
            if roi[i] {
                flood_seed(input, w, h, i % w, i / w, step)
            } else {
                out[i]
            },
    )
}

/// Both seed buffers after the first `n` passes for `max_width`, from `a`
/// and `b`.
pub open spec fn flood_state(
    a: Seq<Option<Pixel>>,
    b: Seq<Option<Pixel>>,
    roi: Seq<bool>,
    w: int,
    h: int,
    max_width: nat,
    n: nat,
) -> (Seq<Option<Pixel>>, Seq<Option<Pixel>>)
    decreases n,
{
    if n == 0 {
        (a, b)
    } else {
        let prev = flood_state(a, b, roi, w, h, max_width, (n - 1) as nat);
        let step = step_size(max_width, (n - 1) as nat) as int;
        if (n - 1) % 2 == 0 {
            (prev.0, flooded(prev.0, prev.1, roi, w, h, step))
        } else {
            (flooded(prev.1, prev.0, roi, w, h, step), prev.1)
        }
    }
}

/// The buffer that holds the seeds after `n` passes.
pub open spec fn flood_result(
    a: Seq<Option<Pixel>>,
    b: Seq<Option<Pixel>>,
    roi: Seq<bool>,
    w: int,
    h: int,
    max_width: nat,
    n: nat,
) -> Seq<Option<Pixel>> {
    let s = flood_state(a, b, roi, w, h, max_width, n);
    if result_of(n) == crate::schedule::SeedBuffer::A {
        s.0
    } else {
        s.1
    }
}

/// Whether `m` is a seed buffer of a `w` by `h` grid.
pub open spec fn seeds_sized(m: Seq<Option<Pixel>>, w: nat, h: nat) -> bool {
    m.len() == w * h && w * h <= usize::MAX
}

/// Clamps `v + sign * step` to `0..=hi`.
fn clamped_offset(v: u32, sign: i64, step: u32, hi: u32) -> (r: u32)
    requires
        -1 <= sign <= 1,
        v <= hi,
    ensures
        r == clamp(v + sign * step, hi as int),
{
    let t: i64 = if sign < 0 {
        (v as i64) - (step as i64)
    } else if sign > 0 {
        (v as i64) + (step as i64)
    } else {
        v as i64
    };
    assert(t == v + sign * step) by (nonlinear_arith)
        requires
            -1 <= sign <= 1,
            sign < 0 ==> t == v - step,
            sign > 0 ==> t == v + step,
            sign == 0 ==> t == v,
    ;
    if t < 0 {
        0
    } else if t > hi as i64 {
        hi
    } else {
        t as u32
    }
}

/// The squared distance from `(x, y)` to `s`.
pub(crate) fn distance2(s: Pixel, x: u32, y: u32) -> (r: u128)
    ensures
        r == dist2(s, x as int, y as int),
        r < 0x2_0000_0000_0000_0000,
{
    let dx: u64 = if s.x >= x {
        (s.x - x) as u64
    } else {
        (x - s.x) as u64
    };
    let dy: u64 = if s.y >= y {
        (s.y - y) as u64
    } else {
        (y - s.y) as u64
    };
    proof {
        assert(dx * dx == (s.x - x) * (s.x - x)) by (nonlinear_arith)
            requires
                dx == s.x - x || dx == x - s.x,
        ;
        assert(dy * dy == (s.y - y) * (s.y - y)) by (nonlinear_arith)
            requires
                dy == s.y - y || dy == y - s.y,
        ;
        assert(dx * dx < 0x1_0000_0000_0000_0000) by (nonlinear_arith)
            requires
                dx < 0x1_0000_0000,
        ;
        assert(dy * dy < 0x1_0000_0000_0000_0000) by (nonlinear_arith)
            requires
                dy < 0x1_0000_0000,
        ;
    }
    (dx as u128) * (dx as u128) + (dy as u128) * (dy as u128)
}

/// The seed that one flood pass with jump `step` writes for pixel `(x, y)`.
pub fn flood_pixel(input: &Vec<Option<Pixel>>, width: u32, height: u32, x: u32, y: u32, step: u32) -> (r:
    Option<Pixel>)
    requires
        seeds_sized(input@, width as nat, height as nat),
        in_grid(width as int, height as int, x as int, y as int),
    ensures
        r == flood_seed(input@, width as int, height as int, x as int, y as int, step as int),
{
    let mut best: Option<Pixel> = None;
    let mut best_d: u128 = 0;
    let mut k: u32 = 0;
    while k < 9
        invariant
            seeds_sized(input@, width as nat, height as nat),
            in_grid(width as int, height as int, x as int, y as int),
            k <= 9,
            best == best_of(input@, width as int, height as int, x as int, y as int, step as int, k as nat),
            best matches Some(b) ==> best_d == dist2(b, x as int, y as int),
        decreases 9 - k,
    {
        let sx: i64 = (k % 3) as i64 - 1;
        let sy: i64 = (k / 3) as i64 - 1;
        let cx = clamped_offset(x, sx, step, width - 1);
        let cy = clamped_offset(y, sy, step, height - 1);
        let i = cell_index(width, height, cx, cy);
        let c = input[i];
        assert(c == candidate(input@, width as int, height as int, x as int, y as int, step as int, k as int));
        match c {
            None => {},
            Some(s) => {
                let d = distance2(s, x, y);
                match best {
                    None => {
                        best = Some(s);
                        best_d = d;
                    },
                    Some(_) => {
                        if d < best_d {
                            best = Some(s);
                            best_d = d;
                        }
                    },
                }
            },
        }
        k = k + 1;
    }
    best
}

/// One flood pass: every pixel of the region of interest gets its flood seed
/// from `input`; the pixels outside the region are left untouched.
pub fn flood_pass(
    input: &Vec<Option<Pixel>>,
    output: &mut Vec<Option<Pixel>>,
    roi: &Vec<bool>,
    width: u32,
    height: u32,
    step: u32,
)
    requires
        seeds_sized(input@, width as nat, height as nat),
        old(output)@.len() == width * height,
        roi@.len() == width * height,
    ensures
        final(output)@ == flooded(input@, old(output)@, roi@, width as int, height as int, step as int),
{
    let n: usize = (width as usize) * (height as usize);
    let mut i: usize = 0;
    while i < n
        invariant
            n == width * height,
            seeds_sized(input@, width as nat, height as nat),
            roi@.len() == n,
            output@.len() == n,
            old(output)@.len() == n,
            i <= n,
            forall|j: int|
                0 <= j < i ==> output@[j] == (if roi@[j] {
                    flood_seed(input@, width as int, height as int, j % (width as int), j / (width as int), step as int)
                } else {
                    old(output)@[j]
                }),
            forall|j: int| i <= j < n ==> output@[j] == old(output)@[j],
        decreases n - i,
    {
        if roi[i] {
            let p = pixel_at(width, height, i);
            let s = flood_pixel(input, width, height, p.x, p.y, step);
            output.set(i, s);
        }
        i = i + 1;
    }
    proof {
        assert(output@ =~= flooded(input@, old(output)@, roi@, width as int, height as int, step as int));
    }
}

/// Runs every flood pass for `max_width` over the two seed buffers, pass `i`
/// reading the buffer that `source_of(i)` names and writing the other, and
/// returns the buffer that holds the result.
pub fn run_flood(
    a: &mut Vec<Option<Pixel>>,
    b: &mut Vec<Option<Pixel>>,
    roi: &Vec<bool>,
    width: u32,
    height: u32,
    max_width: u32,
) -> (r: crate::schedule::SeedBuffer)
    requires
        seeds_sized(old(a)@, width as nat, height as nat),
        seeds_sized(old(b)@, width as nat, height as nat),
        roi@.len() == width * height,
    ensures
        (final(a)@, final(b)@) == flood_state(
            old(a)@,
            old(b)@,
            roi@,
            width as int,
            height as int,
            max_width as nat,
            crate::schedule::pass_count(max_width as nat),
        ),
        r == result_of(crate::schedule::pass_count(max_width as nat)),
        final(a)@.len() == old(a)@.len(),
        final(b)@.len() == old(b)@.len(),
{
    let count = crate::schedule::jfa_pass_count(max_width);
    let mut i: u32 = 0;
    while i < count
        invariant
            i <= count <= 32,
            count == crate::schedule::pass_count(max_width as nat),
            seeds_sized(a@, width as nat, height as nat),
            seeds_sized(b@, width as nat, height as nat),
            roi@.len() == width * height,
            (a@, b@) == flood_state(
                old(a)@,
                old(b)@,
                roi@,
                width as int,
                height as int,
                max_width as nat,
                i as nat,
            ),
        decreases count - i,
    {
        let step = crate::schedule::jfa_step_size(max_width, i);
        if i % 2 == 0 {
            flood_pass(a, b, roi, width, height, step);
        } else {
            flood_pass(b, a, roi, width, height, step);
        }
        i = i + 1;
    }
    crate::schedule::final_seed_buffer(count)
}

/// Candidate `c` holds no seed nearer to `(x, y)` than `b`.
pub open spec fn none_nearer(c: Option<Pixel>, b: Pixel, x: int, y: int) -> bool {
    match c {
        Some(s) => dist2(b, x, y) <= dist2(s, x, y),
        None => true,
    }
}

/// Candidate `c` holds no seed as near to `(x, y)` as `b`.
pub open spec fn all_farther(c: Option<Pixel>, b: Pixel, x: int, y: int) -> bool {
    match c {
        Some(s) => dist2(b, x, y) < dist2(s, x, y),
        None => true,
    }
}

/// The best of candidates `0..n` is a seed exactly when one of them holds a
/// seed; it is then one of them, no farther from the pixel than any other,
/// and strictly nearer than every earlier one.
pub proof fn lemma_best_of_is_nearest(
    input: Seq<Option<Pixel>>,
    w: int,
    h: int,
    x: int,
    y: int,
    step: int,
    n: nat,
)
    ensures
        best_of(input, w, h, x, y, step, n) is None <==> forall|k: int|
            0 <= k < n ==> #[trigger] candidate(input, w, h, x, y, step, k) is None,
        best_of(input, w, h, x, y, step, n) matches Some(b) ==> {
            &&& forall|k: int|
                0 <= k < n ==> none_nearer(#[trigger] candidate(input, w, h, x, y, step, k), b, x, y)
            &&& exists|k: int|
                0 <= k < n && #[trigger] candidate(input, w, h, x, y, step, k) == Some(b) && forall|
                    j: int,
                | 0 <= j < k ==> all_farther(#[trigger] candidate(input, w, h, x, y, step, j), b, x, y)
        },
    decreases n,
{
    if n > 0 {
        let m = (n - 1) as nat;
        lemma_best_of_is_nearest(input, w, h, x, y, step, m);
        let prev = best_of(input, w, h, x, y, step, m);
        let c = candidate(input, w, h, x, y, step, m as int);
        if let Some(s) = c {
            if let Some(b) = prev {
                if dist2(s, x, y) < dist2(b, x, y) {
                    assert forall|j: int| 0 <= j < m implies all_farther(
                        #[trigger] candidate(input, w, h, x, y, step, j),
                        s,
                        x,
                        y,
                    ) by {
                        assert(none_nearer(candidate(input, w, h, x, y, step, j), b, x, y));
                    }
                    assert(candidate(input, w, h, x, y, step, m as int) == Some(s));
                } else {
                    let k = choose|k: int|
                        0 <= k < m && #[trigger] candidate(input, w, h, x, y, step, k) == Some(b)
                            && forall|j: int|
                            0 <= j < k ==> all_farther(
                                #[trigger] candidate(input, w, h, x, y, step, j),
                                b,
                                x,
                                y,
                            );
                    assert(0 <= k < n && candidate(input, w, h, x, y, step, k) == Some(b));
                }
            } else {
                assert forall|j: int| 0 <= j < m implies all_farther(
                    #[trigger] candidate(input, w, h, x, y, step, j),
                    s,
                    x,
                    y,
                ) by {
                    assert(candidate(input, w, h, x, y, step, j) is None);
                }
                assert(candidate(input, w, h, x, y, step, m as int) == Some(s));
            }
        } else {
            if let Some(b) = prev {
                let k = choose|k: int|
                    0 <= k < m && #[trigger] candidate(input, w, h, x, y, step, k) == Some(b)
                        && forall|j: int|
                        0 <= j < k ==> all_farther(
                            #[trigger] candidate(input, w, h, x, y, step, j),
                            b,
                            x,
                            y,
                        );
                assert(0 <= k < n && candidate(input, w, h, x, y, step, k) == Some(b));
            }
        }
    }
}

/// A pass never moves a pixel away from the seed it had: where the pixel
/// held a seed, the seed it receives is no farther.
pub proof fn lemma_flood_seed_no_farther(
    input: Seq<Option<Pixel>>,
    w: int,
    h: int,
    x: int,
    y: int,
    step: int,
)
    requires
        in_grid(w, h, x, y),
    ensures
        input[cell(w, x, y)] matches Some(s) ==> flood_seed(input, w, h, x, y, step) matches Some(
            t,
        ) && dist2(t, x, y) <= dist2(s, x, y),
{
    lemma_best_of_is_nearest(input, w, h, x, y, step, 9);
    assert(offset_x(4) == 0 && offset_y(4) == 0);
    assert(candidate(input, w, h, x, y, step, 4) == input[cell(w, x, y)]);
}

/// The seed that pass `n` writes for a region pixel is its flood seed over
/// the result of the passes before.
proof fn lemma_flood_step(
    a: Seq<Option<Pixel>>,
    b: Seq<Option<Pixel>>,
    roi: Seq<bool>,
    w: int,
    h: int,
    max_width: nat,
    n: nat,
    x: int,
    y: int,
)
    requires
        a.len() == w * h,
        b.len() == w * h,
        roi.len() == w * h,
        in_grid(w, h, x, y),
        roi[cell(w, x, y)],
    ensures
        flood_result(a, b, roi, w, h, max_width, n + 1)[cell(w, x, y)] == flood_seed(
            flood_result(a, b, roi, w, h, max_width, n),
            w,
            h,
            x,
            y,
            step_size(max_width, n) as int,
        ),
{
    lemma_cell_in_range(w, h, x, y);
    lemma_flood_state_len(a, b, roi, w, h, max_width, n);
}

proof fn lemma_flood_state_len(
    a: Seq<Option<Pixel>>,
    b: Seq<Option<Pixel>>,
    roi: Seq<bool>,
    w: int,
    h: int,
    max_width: nat,
    n: nat,
)
    requires
        a.len() == w * h,
        b.len() == w * h,
    ensures
        flood_state(a, b, roi, w, h, max_width, n).0.len() == w * h,
        flood_state(a, b, roi, w, h, max_width, n).1.len() == w * h,
    decreases n,
{
    if n > 0 {
        lemma_flood_state_len(a, b, roi, w, h, max_width, (n - 1) as nat);
    }
}

/// Distance never grows from pass to pass: for a pixel of the region of
/// interest, once some pass has recorded a seed for it, every later pass
/// records a seed that is no farther from it.
pub proof fn lemma_flood_monotone(
    a: Seq<Option<Pixel>>,
    b: Seq<Option<Pixel>>,
    roi: Seq<bool>,
    w: int,
    h: int,
    max_width: nat,
    i: nat,
    j: nat,
    x: int,
    y: int,
)
    requires
        a.len() == w * h,
        b.len() == w * h,
        roi.len() == w * h,
        in_grid(w, h, x, y),
        roi[cell(w, x, y)],
        i <= j,
    ensures
        flood_result(a, b, roi, w, h, max_width, i)[cell(w, x, y)] matches Some(s) ==> flood_result(
            a,
            b,
            roi,
            w,
            h,
            max_width,
            j,
        )[cell(w, x, y)] matches Some(t) && dist2(t, x, y) <= dist2(s, x, y),
    decreases j - i,
{
    if i < j {
        lemma_flood_monotone(a, b, roi, w, h, max_width, i, (j - 1) as nat, x, y);
        lemma_flood_step(a, b, roi, w, h, max_width, (j - 1) as nat, x, y);
        lemma_flood_seed_no_farther(
            flood_result(a, b, roi, w, h, max_width, (j - 1) as nat),
            w,
            h,
            x,
            y,
            step_size(max_width, (j - 1) as nat) as int,
        );
    }
}

/// The passes never write outside the region of interest: there both buffers
/// keep what they held before the first pass.
pub proof fn lemma_flood_keeps_outside_region(
    a: Seq<Option<Pixel>>,
    b: Seq<Option<Pixel>>,
    roi: Seq<bool>,
    w: int,
    h: int,
    max_width: nat,
    n: nat,
    i: int,
)
    requires
        a.len() == w * h,
        b.len() == w * h,
        0 <= i < w * h,
        !roi[i],
    ensures
        flood_state(a, b, roi, w, h, max_width, n).0[i] == a[i],
        flood_state(a, b, roi, w, h, max_width, n).1[i] == b[i],
    decreases n,
{
    if n > 0 {
        lemma_flood_keeps_outside_region(a, b, roi, w, h, max_width, (n - 1) as nat, i);
        lemma_flood_state_len(a, b, roi, w, h, max_width, (n - 1) as nat);
    }
}

} // verus!
