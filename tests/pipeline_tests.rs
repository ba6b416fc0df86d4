use bevy_outliner::{
    render_outline, CacheAction, CacheKey, Extent, FramePlan, MeshOutline, OutlineCamera,
    OutlineSettings, OutlineShaderSettings, ResizedBuffers, ResourceCache, Rgba, WorkingTextureSet,
    SUBPIXELS,
};

fn red() -> Rgba {
    Rgba { r: 255, g: 0, b: 0, a: 255 }
}

fn grey() -> Rgba {
    Rgba { r: 40, g: 40, b: 40, a: 255 }
}

fn payload(width_px: u32) -> OutlineShaderSettings {
    OutlineShaderSettings { color: red(), width: width_px * SUBPIXELS, enabled: true }
}

fn square_silhouette(size: u32, lo: u32, hi: u32) -> Vec<bool> {
    let mut m = vec![false; (size * size) as usize];
    for y in lo..=hi {
        for x in lo..=hi {
            m[(y * size + x) as usize] = true;
        }
    }
    m
}

#[test]
fn square_gets_an_outline_ring() {
    // A 10 x 10 square in the middle of a 100 x 100 frame: columns and rows
    // 45 to 54. Width 5 px, max width 8.
    let n = 100u32;
    let sil = square_silhouette(n, 45, 54);
    let scene = vec![grey(); (n * n) as usize];
    let out = render_outline(&scene, &sil, n, n, 8, &payload(5));
    let at = |x: u32, y: u32| out[(y * n + x) as usize];
    // The square itself keeps the scene colour.
    assert_eq!(at(50, 50), grey());
    assert_eq!(at(45, 45), grey());
    // One to four pixels outside an edge: full outline colour.
    for d in 1..=4u32 {
        assert_eq!(at(54 + d, 50), red());
        assert_eq!(at(45 - d, 50), red());
        assert_eq!(at(50, 54 + d), red());
        assert_eq!(at(50, 45 - d), red());
    }
    // Five pixels out: the midpoint of the falloff.
    let mid = at(59, 50);
    assert!(mid != grey() && mid != red());
    // Six or more pixels (width plus the band) out: no change.
    for d in 6..=20u32 {
        assert_eq!(at(54 + d, 50), grey());
        assert_eq!(at(50, 45 - d), grey());
    }
    // Diagonal from a corner: (56, 56) is sqrt(8) = 2.83 px from (54, 54).
    assert_eq!(at(56, 56), red());
    // (57, 57) is sqrt(18) = 4.24 px away, inside the falloff band:
    // coverage (1280 + 256 - 1086) * 255 / 512 = 224.
    assert_eq!(at(57, 57), Rgba { r: 228, g: 4, b: 4, a: 255 });
    // (59, 59) is sqrt(50) = 7.07 px away: no change.
    assert_eq!(at(59, 59), grey());
    // Nothing changes more than width plus band away, anywhere.
    for y in 0..n {
        for x in 0..n {
            let dx = if x < 45 { 45 - x } else if x > 54 { x - 54 } else { 0 };
            let dy = if y < 45 { 45 - y } else if y > 54 { y - 54 } else { 0 };
            if dx * dx + dy * dy >= 36 {
                assert_eq!(at(x, y), grey());
            }
        }
    }
}

#[test]
fn no_silhouette_leaves_the_scene() {
    let sil = vec![false; 64];
    let scene = vec![grey(); 64];
    assert_eq!(render_outline(&scene, &sil, 8, 8, 4, &payload(2)), scene);
}

#[test]
fn zero_max_width_draws_nothing_outside() {
    let sil = square_silhouette(10, 4, 5);
    let scene = vec![grey(); 100];
    assert_eq!(render_outline(&scene, &sil, 10, 10, 0, &payload(3)), scene);
}

#[test]
fn disabled_settings_leave_the_scene() {
    let sil = square_silhouette(10, 4, 5);
    let scene = vec![grey(); 100];
    let off = OutlineShaderSettings { enabled: false, ..payload(3) };
    assert_eq!(render_outline(&scene, &sil, 10, 10, 8, &off), scene);
}

#[test]
fn resize_reallocates_all_five_buffers() {
    let mut cam = OutlineCamera::new(OutlineSettings::default(), Some(Extent { width: 800, height: 600 }));
    assert!(cam.textures.matches(Extent { width: 800, height: 600 }));
    let big = Extent { width: 1600, height: 1200 };
    let plan = cam.begin_frame(Some(big), payload(5));
    let all = ResizedBuffers { silhouette: true, mask_a: true, mask_b: true, seed_a: true, seed_b: true };
    assert_eq!(plan, FramePlan::Dispatch { size: big, resized: all, action: CacheAction::Rebuild });
    assert!(cam.textures.matches(big));
    assert_eq!(cam.textures.seed_b, big);
    // The next frame at the same size reallocates nothing.
    let again = cam.begin_frame(Some(big), payload(5));
    let none = ResizedBuffers { silhouette: false, mask_a: false, mask_b: false, seed_a: false, seed_b: false };
    assert_eq!(again, FramePlan::Dispatch { size: big, resized: none, action: CacheAction::Reuse });
}

#[test]
fn resize_only_the_mismatched_buffer() {
    let mut set = WorkingTextureSet::allocate(Some(Extent { width: 4, height: 4 }));
    set.mask_b = Extent { width: 2, height: 2 };
    let r = set.resize_to(Some(Extent { width: 4, height: 4 }));
    assert_eq!(r, ResizedBuffers { silhouette: false, mask_a: false, mask_b: true, seed_a: false, seed_b: false });
    assert!(set.matches(Extent { width: 4, height: 4 }));
}

#[test]
fn zero_or_unknown_target_skips_the_frame() {
    let start = Extent { width: 800, height: 600 };
    let mut cam = OutlineCamera::new(OutlineSettings::default(), Some(start));
    assert_eq!(cam.begin_frame(Some(Extent { width: 0, height: 600 }), payload(5)), FramePlan::Skip);
    assert_eq!(cam.begin_frame(None, payload(5)), FramePlan::Skip);
    assert!(cam.textures.matches(start));
    assert_eq!(cam.cache.key, None);
}

#[test]
fn first_allocation_sizes() {
    let fallback = WorkingTextureSet::allocate(None);
    assert!(fallback.matches(Extent { width: 1920, height: 1080 }));
    let clamped = WorkingTextureSet::allocate(Some(Extent { width: 0, height: 7 }));
    assert!(clamped.matches(Extent { width: 1, height: 7 }));
}

#[test]
fn render_frame_after_resize() {
    let mut cam = OutlineCamera::new(OutlineSettings { max_width: 4, enabled: true }, Some(Extent { width: 4, height: 4 }));
    let size = Extent { width: 8, height: 8 };
    let sil = square_silhouette(8, 3, 4);
    let scene = vec![grey(); 64];
    let out = cam.render_frame(Some(size), &scene, &sil, payload(2)).expect("frame runs");
    assert_eq!(out, render_outline(&scene, &sil, 8, 8, 4, &payload(2)));
    assert_eq!(out[(4 * 8 + 5) as usize], red());
    assert!(cam.textures.matches(size));
    // A scene of the old size does not match the target: the frame is skipped.
    let small = vec![grey(); 16];
    assert_eq!(cam.render_frame(Some(size), &small, &sil, payload(1)), None);
    assert_eq!(cam.render_frame(None, &scene, &sil, payload(1)), None);
}

#[test]
fn cache_check_twice_rebuilds_once() {
    let mut cache = ResourceCache::new();
    let key = CacheKey::new(Extent { width: 800, height: 600 }, 64);
    assert_eq!(cache.prepare(key, payload(5)), CacheAction::Rebuild);
    assert_eq!(cache.prepare(key, payload(5)), CacheAction::Reuse);
}

#[test]
fn cache_size_or_max_width_change_rebuilds_once() {
    let mut cache = ResourceCache::new();
    let key = CacheKey::new(Extent { width: 800, height: 600 }, 64);
    cache.prepare(key, payload(5));
    let bigger = CacheKey::new(Extent { width: 1600, height: 1200 }, 64);
    assert_eq!(cache.prepare(bigger, payload(5)), CacheAction::Rebuild);
    assert_eq!(cache.prepare(bigger, payload(5)), CacheAction::Reuse);
    let wider = CacheKey::new(Extent { width: 1600, height: 1200 }, 32);
    assert_eq!(cache.prepare(wider, payload(5)), CacheAction::Rebuild);
    assert_eq!(cache.prepare(wider, payload(5)), CacheAction::Reuse);
}

#[test]
fn cache_settings_change_only_patches() {
    let mut cache = ResourceCache::new();
    let key = CacheKey::new(Extent { width: 800, height: 600 }, 64);
    cache.prepare(key, payload(5));
    assert_eq!(cache.prepare(key, payload(7)), CacheAction::Patch);
    let off = OutlineShaderSettings { enabled: false, ..payload(7) };
    assert_eq!(cache.prepare(key, off), CacheAction::Patch);
    assert_eq!(cache.prepare(key, off), CacheAction::Reuse);
    assert_eq!(cache.payload, Some(off));
}

#[test]
fn mesh_outline_constructors() {
    let d = MeshOutline::default();
    assert_eq!(d.color, Rgba { r: 255, g: 128, b: 0, a: 255 });
    assert_eq!(d.width, 5 * SUBPIXELS);
    let n = MeshOutline::new(red(), 300);
    assert_eq!(n.color, red());
    assert_eq!(n.width, 300);
    let c = MeshOutline::with_color(red());
    assert_eq!(c.color, red());
    assert_eq!(c.width, 1280);
    let w = MeshOutline::with_width(77);
    assert_eq!(w.color, d.color);
    assert_eq!(w.width, 77);
}

#[test]
fn shader_settings_from_first_outline() {
    let cam = OutlineSettings { max_width: 16, enabled: false };
    let s = OutlineShaderSettings::for_camera(Some(MeshOutline::new(red(), 512)), &cam);
    assert_eq!(s, OutlineShaderSettings { color: red(), width: 512, enabled: false });
    let d = OutlineShaderSettings::for_camera(None, &OutlineSettings::default());
    assert_eq!(d, OutlineShaderSettings { color: Rgba { r: 255, g: 128, b: 0, a: 255 }, width: 1280, enabled: true });
}
