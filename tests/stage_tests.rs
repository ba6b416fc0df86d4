use bevy_outliner::composite::{composite, composite_pixel, distance_of, floor_sqrt, outline_coverage};
use bevy_outliner::dilate::{dilate_horizontal, dilate_vertical, region_of_interest};
use bevy_outliner::flood::{flood_pass, flood_pixel, run_flood};
use bevy_outliner::grid::{cell_index, pixel_at};
use bevy_outliner::seed::{empty_seeds, init_seeds};
use bevy_outliner::{OutlineShaderSettings, Pixel, Rgba, SeedBuffer, FULL_COVERAGE};

fn mask(w: u32, h: u32, on: &[(u32, u32)]) -> Vec<bool> {
    let mut m = vec![false; (w * h) as usize];
    for &(x, y) in on {
        m[(y * w + x) as usize] = true;
    }
    m
}

fn px(x: u32, y: u32) -> Pixel {
    Pixel { x, y }
}

fn settings(width: u32) -> OutlineShaderSettings {
    OutlineShaderSettings { color: Rgba { r: 255, g: 0, b: 0, a: 255 }, width, enabled: true }
}

#[test]
fn grid_indexing() {
    assert_eq!(cell_index(10, 4, 3, 2), 23);
    assert_eq!(pixel_at(10, 4, 23), px(3, 2));
}

#[test]
fn horizontal_dilation_stops_at_radius_and_edges() {
    let m = mask(7, 1, &[(3, 0)]);
    let r = dilate_horizontal(&m, 7, 1, 2);
    assert_eq!(r, vec![false, true, true, true, true, true, false]);
    let edge = dilate_horizontal(&mask(4, 1, &[(0, 0)]), 4, 1, 1);
    assert_eq!(edge, vec![true, true, false, false]);
}

#[test]
fn vertical_dilation_stops_at_radius() {
    let m = mask(1, 5, &[(0, 0)]);
    let r = dilate_vertical(&m, 1, 5, 2);
    assert_eq!(r, vec![true, true, true, false, false]);
}

#[test]
fn region_is_a_box_around_the_silhouette() {
    let m = mask(5, 5, &[(2, 2)]);
    let roi = region_of_interest(&m, 5, 5, 1);
    for y in 0..5u32 {
        for x in 0..5u32 {
            let inside = (1..=3).contains(&x) && (1..=3).contains(&y);
            assert_eq!(roi[(y * 5 + x) as usize], inside);
        }
    }
    let none = region_of_interest(&m, 5, 5, 0);
    assert_eq!(none, m);
}

#[test]
fn silhouette_pixels_seed_themselves() {
    let sil = mask(6, 4, &[(1, 1), (4, 2)]);
    let roi = region_of_interest(&sil, 6, 4, 2);
    let seeds = init_seeds(&sil, &roi, 6, 4);
    assert_eq!(seeds[(1 * 6 + 1) as usize], Some(px(1, 1)));
    assert_eq!(seeds[(2 * 6 + 4) as usize], Some(px(4, 2)));
    let seeded = seeds.iter().filter(|s| s.is_some()).count();
    assert_eq!(seeded, 2);
}

#[test]
fn pixels_outside_the_region_start_without_seed() {
    let sil = mask(3, 1, &[(0, 0), (2, 0)]);
    let roi = vec![true, true, false];
    let seeds = init_seeds(&sil, &roi, 3, 1);
    assert_eq!(seeds, vec![Some(px(0, 0)), None, None]);
    assert_eq!(empty_seeds(3), vec![None, None, None]);
}

#[test]
fn flood_picks_the_nearest_seed() {
    // Seeds at (0, 2) and (3, 2) in a 5 x 5 grid; pixel (2, 2) with step 1
    // sees (3, 2) at distance 1 through its right neighbour.
    let mut input = vec![None; 25];
    input[10] = Some(px(0, 2));
    input[13] = Some(px(3, 2));
    input[11] = Some(px(0, 2));
    assert_eq!(flood_pixel(&input, 5, 5, 2, 2, 1), Some(px(3, 2)));
}

#[test]
fn flood_ties_go_to_the_earliest_candidate() {
    // Pixel (2, 2), step 1: the left candidate (index 3) and the right one
    // (index 5) hold seeds at equal distance; the left one is earlier.
    let mut input = vec![None; 25];
    input[11] = Some(px(1, 2));
    input[13] = Some(px(3, 2));
    assert_eq!(flood_pixel(&input, 5, 5, 2, 2, 1), Some(px(1, 2)));
    // The upper candidate (index 1) comes before both.
    input[7] = Some(px(2, 1));
    assert_eq!(flood_pixel(&input, 5, 5, 2, 2, 1), Some(px(2, 1)));
}

#[test]
fn flood_candidates_are_clamped_to_the_grid() {
    let mut input = vec![None; 9];
    input[0] = Some(px(0, 0));
    // From (1, 1) a step of 5 clamps every offset to the border.
    assert_eq!(flood_pixel(&input, 3, 3, 1, 1, 5), Some(px(0, 0)));
    assert_eq!(flood_pixel(&vec![None; 9], 3, 3, 1, 1, 1), None);
}

#[test]
fn flood_pass_leaves_pixels_outside_the_region() {
    let mut input = vec![None; 3];
    input[0] = Some(px(0, 0));
    let stale = Some(px(9, 9));
    let mut output = vec![stale, stale, stale];
    let roi = vec![true, true, false];
    flood_pass(&input, &mut output, &roi, 3, 1, 1);
    assert_eq!(output, vec![Some(px(0, 0)), Some(px(0, 0)), stale]);
}

#[test]
fn flood_distance_never_grows() {
    let w = 20u32;
    let h = 20u32;
    let sil = mask(w, h, &[(3, 3), (15, 12), (9, 17)]);
    let roi = region_of_interest(&sil, w, h, 16);
    let mut a = init_seeds(&sil, &roi, w, h);
    let mut b = empty_seeds((w * h) as usize);
    let d2 = |s: Option<Pixel>, x: u32, y: u32| {
        s.map(|p| {
            let dx = p.x as i64 - x as i64;
            let dy = p.y as i64 - y as i64;
            dx * dx + dy * dy
        })
    };
    let steps = bevy_outliner::schedule::flood_plan(16);
    let mut prev = a.clone();
    for step in &steps {
        match step.source {
            SeedBuffer::A => flood_pass(&a, &mut b, &roi, w, h, step.step_size),
            SeedBuffer::B => flood_pass(&b, &mut a, &roi, w, h, step.step_size),
        }
        let cur = match step.target {
            SeedBuffer::A => a.clone(),
            SeedBuffer::B => b.clone(),
        };
        for i in 0..(w * h) as usize {
            if roi[i] {
                let p = pixel_at(w, h, i);
                if let Some(before) = d2(prev[i], p.x, p.y) {
                    let after = d2(cur[i], p.x, p.y).expect("a seed stays");
                    assert!(after <= before);
                }
            }
        }
        prev = cur;
    }
    // Every region pixel ends with its nearest seed here.
    let mut a2 = init_seeds(&sil, &roi, w, h);
    let mut b2 = empty_seeds((w * h) as usize);
    let which = run_flood(&mut a2, &mut b2, &roi, w, h, 16);
    assert_eq!(which, SeedBuffer::A);
    assert_eq!(a2, prev);
    let p = (5 * w + 4) as usize;
    assert_eq!(a2[p], Some(px(3, 3)));
}

#[test]
fn floor_square_roots() {
    assert_eq!(floor_sqrt(0), 0);
    assert_eq!(floor_sqrt(1), 1);
    assert_eq!(floor_sqrt(15), 3);
    assert_eq!(floor_sqrt(16), 4);
    assert_eq!(floor_sqrt(u64::MAX as u128), 0xffff_ffff);
    assert_eq!(distance_of(0), 0);
    assert_eq!(distance_of(4), 512);
    // sqrt(2) = 1.41421... pixels = 362.03 units.
    assert_eq!(distance_of(2), 362);
}

#[test]
fn coverage_falloff() {
    // Width 5 px, band 1 px.
    assert_eq!(outline_coverage(0, 1280, 256), FULL_COVERAGE);
    assert_eq!(outline_coverage(1024, 1280, 256), FULL_COVERAGE);
    assert_eq!(outline_coverage(1280, 1280, 256), 127);
    assert_eq!(outline_coverage(1536, 1280, 256), 0);
    assert_eq!(outline_coverage(1408, 1280, 256), 63);
    assert_eq!(outline_coverage(5000, 1280, 256), 0);
}

#[test]
fn coverage_without_band_is_a_step() {
    assert_eq!(outline_coverage(1280, 1280, 0), FULL_COVERAGE);
    assert_eq!(outline_coverage(1281, 1280, 0), 0);
}

#[test]
fn coverage_midpoint_for_other_bands() {
    assert_eq!(outline_coverage(700, 700, 1), 127);
    assert_eq!(outline_coverage(10, 10, 77), 127);
}

#[test]
fn composite_pixel_cases() {
    let scene = Rgba { r: 10, g: 20, b: 30, a: 255 };
    let s = settings(1280);
    // One pixel away from its seed: fully covered.
    let covered = composite_pixel(scene, Some(px(0, 0)), true, false, 1, 0, &s);
    assert_eq!(covered, s.color);
    // On the silhouette itself, at distance 0: untouched.
    assert_eq!(composite_pixel(scene, Some(px(4, 4)), true, true, 4, 4, &s), scene);
    // No seed: untouched.
    assert_eq!(composite_pixel(scene, None, true, false, 1, 0, &s), scene);
    // Outside the region: untouched, whatever the seed says.
    assert_eq!(composite_pixel(scene, Some(px(0, 0)), false, false, 1, 0, &s), scene);
    // Disabled: untouched.
    let off = OutlineShaderSettings { enabled: false, ..s };
    assert_eq!(composite_pixel(scene, Some(px(0, 0)), true, false, 1, 0, &off), scene);
    // Exactly at the outline width: half coverage.
    let half = composite_pixel(scene, Some(px(0, 0)), true, false, 5, 0, &s);
    // (10 * 128 + 255 * 127) / 255 = 132, (20 * 128) / 255 = 10, (30 * 128) / 255 = 15.
    assert_eq!(half, Rgba { r: 132, g: 10, b: 15, a: 255 });
}

#[test]
fn composite_alpha_scales_coverage() {
    let scene = Rgba { r: 0, g: 0, b: 0, a: 0 };
    let s = OutlineShaderSettings { color: Rgba { r: 255, g: 255, b: 255, a: 51 }, width: 1280, enabled: true };
    // Full falloff coverage 255 scaled by alpha 51: 51.
    let out = composite_pixel(scene, Some(px(0, 0)), true, false, 1, 0, &s);
    assert_eq!(out, Rgba { r: 51, g: 51, b: 51, a: 10 });
}

#[test]
fn compositor_ignores_seeds_outside_the_region() {
    let scene = vec![Rgba { r: 1, g: 2, b: 3, a: 4 }; 4];
    let seeds = vec![Some(px(0, 0)); 4];
    let roi = vec![false; 4];
    let sil = vec![false; 4];
    let out = composite(&scene, &seeds, &roi, &sil, 2, 2, &settings(1280));
    assert_eq!(out, scene);
}
