//! The whole effect for one camera and one frame: dilation, seed
//! initialisation, the flood passes and the compositor, in that order, over
//! working buffers that the camera keeps sized to its render target.

use crate::cache::{action_for, cache_after, CacheAction, CacheKey, ResourceCache};
use crate::components::{OutlineSettings, OutlineShaderSettings, Rgba};
use crate::composite::{composite, composited};
use crate::dilate::{region, region_of_interest, sized};
use crate::flood::{flood_result, run_flood};
use crate::grid::{grid_fits, Extent, Pixel};
use crate::schedule::{pass_count, SeedBuffer};
use crate::seed::{empty_seeds, init_seeds, initial_seeds};
use crate::textures::{initial_extent, usable_target, ResizedBuffers, WorkingTextureSet};
use vstd::prelude::*;

verus! {

/// The seed buffer that the flood passes for `max_width` leave for the
/// compositor, starting from the initial seeds in A and no seeds in B.
pub open spec fn final_seeds(sil: Seq<bool>, w: int, h: int, max_width: nat) -> Seq<Option<Pixel>> {
    let roi = region(sil, w, h, max_width as int);
    flood_result(
        initial_seeds(sil, roi, w, h),
        Seq::new((w * h) as nat, |i: int| None::<Pixel>),
        roi,
        w,
        h,
        max_width,
        pass_count(max_width),
    )
}

/// The scene with the outline of silhouette `sil` composited over it.
pub open spec fn outlined(
    scene: Seq<Rgba>,
    sil: Seq<bool>,
    w: int,
    h: int,
    max_width: nat,
    settings: OutlineShaderSettings,
) -> Seq<Rgba> {
    Seq::new(
        (w * h) as nat,
        |i: int|
            composited(
                scene,
                final_seeds(sil, w, h, max_width),
                region(sil, w, h, max_width as int),
                sil,
                w,
                settings,
                i,
            ),
    )
}

/// Runs every stage over a `width` by `height` frame: dilates the silhouette
/// into the region of interest, writes the initial seeds to buffer A and
/// clears buffer B, runs the flood passes, and composites from the buffer
/// that holds their result.
pub fn render_outline(
    scene: &Vec<Rgba>,
    silhouette: &Vec<bool>,
    width: u32,
    height: u32,
    max_width: u32,
    settings: &OutlineShaderSettings,
) -> (r: Vec<Rgba>)
    requires
        sized(silhouette@, width as nat, height as nat),
        scene@.len() == width * height,
    ensures
        r@ == outlined(scene@, silhouette@, width as int, height as int, max_width as nat, *settings),
{
    let n: usize = (width as usize) * (height as usize);
    let roi = region_of_interest(silhouette, width, height, max_width);
    let mut seed_a = init_seeds(silhouette, &roi, width, height);
    let mut seed_b = empty_seeds(n);
    let which = run_flood(&mut seed_a, &mut seed_b, &roi, width, height, max_width);
    let out = match which {
        SeedBuffer::A => composite(scene, &seed_a, &roi, silhouette, width, height, settings),
        SeedBuffer::B => composite(scene, &seed_b, &roi, silhouette, width, height, settings),
    };
    proof {
        assert(out@ =~= outlined(
            scene@,
            silhouette@,
            width as int,
            height as int,
            max_width as nat,
            *settings,
        ));
    }
    out
}

/// What a camera does in a frame, once its buffers are sized.
#[derive(Clone, Copy, Debug, PartialEq, Eq, Structural)]
pub enum FramePlan {
    /// The render target is unknown or empty: no outline this frame.
    Skip,
    /// Dispatch at `size`, after reallocating `resized` and taking `action`
    /// on the binding state.
    Dispatch { size: Extent, resized: ResizedBuffers, action: CacheAction },
}

/// A camera with outlining enabled, and everything it owns for it: its
/// settings, its working buffers and its cached binding state.
pub struct OutlineCamera {
    pub settings: OutlineSettings,
    pub textures: WorkingTextureSet,
    pub cache: ResourceCache,
}

impl OutlineCamera {
    /// Enables outlining on a camera whose render target has size `target`,
    /// if it could be resolved.
    pub fn new(settings: OutlineSettings, target: Option<Extent>) -> (r: Self)
        ensures
            r.settings == settings,
            r.textures.all_sized(initial_extent(target)),
            r.cache.key is None,
            r.cache.payload is None,
    {
        OutlineCamera {
            settings,
            textures: WorkingTextureSet::allocate(target),
            cache: ResourceCache::new(),
        }
    }

    /// Prepares a frame: resizes the working buffers to the render target,
    /// then checks the binding state against the target size and the maximum
    /// width. Skips the frame when the target is unknown or has a zero side.
    pub fn begin_frame(&mut self, target: Option<Extent>, payload: OutlineShaderSettings) -> (r:
        FramePlan)
        ensures
            final(self).settings == old(self).settings,
            !usable_target(target) ==> r == FramePlan::Skip && *final(self) == *old(self),
            usable_target(target) ==> {
                let size = target.unwrap();
                let key = CacheKey { width: size.width, height: size.height, max_width: old(self).settings.max_width };
                &&& final(self).textures.all_sized(size)
                &&& final(self).cache == cache_after(key, payload)
                &&& r matches FramePlan::Dispatch { size: s, resized, action } && s == size
                    && action == action_for(old(self).cache, key, payload)
                    && resized.silhouette == (old(self).textures.silhouette != size)
                    && resized.mask_a == (old(self).textures.mask_a != size)
                    && resized.mask_b == (old(self).textures.mask_b != size)
                    && resized.seed_a == (old(self).textures.seed_a != size)
                    && resized.seed_b == (old(self).textures.seed_b != size)
            },
    {
        let resized = self.textures.resize_to(target);
        match target {
            Some(size) => {
                if size.width == 0 || size.height == 0 {
                    return FramePlan::Skip;
                }
                let key = CacheKey::new(size, self.settings.max_width);
                let action = self.cache.prepare(key, payload);
                FramePlan::Dispatch { size, resized, action }
            },
            None => FramePlan::Skip,
        }
    }

    /// One frame on the CPU: prepares it, then renders the outline over
    /// `scene`. Gives nothing when the frame is skipped, or when the scene or
    /// the silhouette does not match the target size.
    pub fn render_frame(
        &mut self,
        target: Option<Extent>,
        scene: &Vec<Rgba>,
        silhouette: &Vec<bool>,
        payload: OutlineShaderSettings,
    ) -> (r: Option<Vec<Rgba>>)
        ensures
            final(self).settings == old(self).settings,
            usable_target(target) ==> final(self).textures.all_sized(target.unwrap()),
            r is Some <==> usable_target(target) && scene@.len() == target.unwrap().width
                * target.unwrap().height && silhouette@.len() == target.unwrap().width
                * target.unwrap().height && grid_fits(
                target.unwrap().width as nat,
                target.unwrap().height as nat,
            ),
            r matches Some(out) ==> out@ == outlined(
                scene@,
                silhouette@,
                target.unwrap().width as int,
                target.unwrap().height as int,
                old(self).settings.max_width as nat,
                payload,
            ),
    {
        let plan = self.begin_frame(target, payload);
        match plan {
            FramePlan::Skip => None,
            FramePlan::Dispatch { size, resized: _, action: _ } => {
                let w = size.width as u64;
                let h = size.height as u64;
                assert((w as u128) * (h as u128) <= 0xffff_ffff_ffff_ffff_ffff_ffff_ffff_ffff) by (nonlinear_arith)
                    requires
                        w <= 0xffff_ffff,
                        h <= 0xffff_ffff,
                ;
                let n: u128 = (w as u128) * (h as u128);
                if n > usize::MAX as u128 || scene.len() as u128 != n || silhouette.len() as u128 != n {
                    return None;
                }
                Some(render_outline(scene, silhouette, size.width, size.height, self.settings.max_width, &payload))
            },
        }
    }
}

/// After the flood passes of a frame, a pixel outside the region of interest
/// holds no seed, and the compositor leaves its scene colour as it is.
pub proof fn lemma_no_outline_outside_region(
    scene: Seq<Rgba>,
    sil: Seq<bool>,
    w: int,
    h: int,
    max_width: nat,
    settings: OutlineShaderSettings,
    i: int,
)
    requires
        sil.len() == w * h,
        scene.len() == w * h,
        0 <= i < w * h,
        !region(sil, w, h, max_width as int)[i],
    ensures
        final_seeds(sil, w, h, max_width)[i] is None,
        outlined(scene, sil, w, h, max_width, settings)[i] == scene[i],
{
    let roi = region(sil, w, h, max_width as int);
    crate::flood::lemma_flood_keeps_outside_region(
        initial_seeds(sil, roi, w, h),
        Seq::new((w * h) as nat, |j: int| None::<Pixel>),
        roi,
        w,
        h,
        max_width,
        pass_count(max_width),
        i,
    );
    crate::composite::lemma_blend_zero(scene[i], settings.color);
}

} // verus!
