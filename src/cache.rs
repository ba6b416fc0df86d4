//! The resource cache: decides once per frame whether a camera's binding
//! state must be rebuilt, only its settings payload patched, or nothing done.

use crate::components::OutlineShaderSettings;
use crate::grid::Extent;
use crate::schedule::{flood_plan, pass_count, result_of, source_of, step_size, target_of, FloodStep, SeedBuffer};
use vstd::prelude::*;

verus! {

/// What the binding state is built for: the texture size and the maximum
/// outline width, which fixes the dilation radius and the flood passes.
#[derive(Clone, Copy, Debug, PartialEq, Eq, Structural)]
pub struct CacheKey {
    pub width: u32,
    pub height: u32,
    pub max_width: u32,
}

impl CacheKey {
    /// The key of a frame with textures of size `size` and `max_width`.
    pub fn new(size: Extent, max_width: u32) -> (r: Self)
        ensures
            r.width == size.width,
            r.height == size.height,
            r.max_width == max_width,
    {
        CacheKey { width: size.width, height: size.height, max_width }
    }
}

/// The work that a cache check asks for before dispatch.
#[derive(Clone, Copy, Debug, PartialEq, Eq, Structural)]
pub enum CacheAction {
    /// Build all binding state anew, settings payload included.
    Rebuild,
    /// Keep the binding state; write the new settings payload in place.
    Patch,
    /// Keep everything.
    Reuse,
}

/// The cached state of one camera: the key its binding state was built for
/// and the settings payload last written, if any.
#[derive(Clone, Copy, Debug, PartialEq, Eq, Structural)]
pub struct ResourceCache {
    pub key: Option<CacheKey>,
    pub payload: Option<OutlineShaderSettings>,
}

/// The action that a check with `key` and `payload` takes on `cache`.
pub open spec fn action_for(cache: ResourceCache, key: CacheKey, payload: OutlineShaderSettings) -> CacheAction {
    if cache.key != Some(key) {
        CacheAction::Rebuild
    } else if cache.payload != Some(payload) {
        CacheAction::Patch
    } else {
        CacheAction::Reuse
    }
}

/// The cache after a check with `key` and `payload`.
pub open spec fn cache_after(key: CacheKey, payload: OutlineShaderSettings) -> ResourceCache {
    ResourceCache { key: Some(key), payload: Some(payload) }
}

impl ResourceCache {
    /// An empty cache: the first check rebuilds.
    pub fn new() -> (r: Self)
        ensures
            r.key is None,
            r.payload is None,
    {
        ResourceCache { key: None, payload: None }
    }

    /// The check before dispatch: rebuild when there is no state or its key
    /// differs, patch when only the settings payload differs, reuse otherwise.
    pub fn prepare(&mut self, key: CacheKey, payload: OutlineShaderSettings) -> (r: CacheAction)
        ensures
            r == action_for(*old(self), key, payload),
            *final(self) == cache_after(key, payload),
    {
        let r = match self.key {
            Some(k) => {
                if k != key {
                    CacheAction::Rebuild
                } else {
                    match self.payload {
                        Some(p) => {
                            if p != payload {
                                CacheAction::Patch
                            } else {
                                CacheAction::Reuse
                            }
                        },
                        None => CacheAction::Patch,
                    }
                }
            },
            None => CacheAction::Rebuild,
        };
        self.key = Some(key);
        self.payload = Some(payload);
        r
    }
}

/// Checking twice with the same key and payload rebuilds at most once: the
/// second check reuses. A change of key forces a rebuild, and exactly one:
/// the check after it reuses. A change of payload alone patches.
pub proof fn lemma_cache_rebuilds_once(
    cache: ResourceCache,
    key: CacheKey,
    payload: OutlineShaderSettings,
    next_key: CacheKey,
    next_payload: OutlineShaderSettings,
)
    ensures
        action_for(cache_after(key, payload), key, payload) == CacheAction::Reuse,
        next_key != key ==> action_for(cache_after(key, payload), next_key, next_payload)
            == CacheAction::Rebuild,
        action_for(cache_after(next_key, next_payload), next_key, next_payload) == CacheAction::Reuse,
        next_payload != payload ==> action_for(cache_after(key, payload), key, next_payload)
            == CacheAction::Patch,
{
}

/// The uniform of a dilation pass.
#[derive(Clone, Copy, Debug, PartialEq, Eq, Structural)]
pub struct DilateParams {
    /// The dilation radius in pixels.
    pub max_width: u32,
    /// Whether the pass runs along columns rather than rows.
    pub is_vertical: bool,
}

/// The binding state that a rebuild creates for a maximum outline width.
pub struct BindingPlan {
    /// The horizontal dilation pass: silhouette into mask A.
    pub dilate_h: DilateParams,
    /// The vertical dilation pass: mask A into mask B, the final mask.
    pub dilate_v: DilateParams,
    /// The flood passes in order.
    pub steps: Vec<FloodStep>,
    /// The seed buffer that the compositor reads.
    pub result: SeedBuffer,
}

impl BindingPlan {
    /// The plan for `max_width`.
    pub fn new(max_width: u32) -> (r: Self)
        ensures
            r.dilate_h == (DilateParams { max_width, is_vertical: false }),
            r.dilate_v == (DilateParams { max_width, is_vertical: true }),
            r.steps@.len() == pass_count(max_width as nat),
            forall|i: int|
                0 <= i < r.steps@.len() ==> {
                    &&& r.steps@[i].step_size == step_size(max_width as nat, i as nat)
                    &&& r.steps@[i].source == source_of(i as nat)
                    &&& r.steps@[i].target == target_of(i as nat)
                },
            r.result == result_of(pass_count(max_width as nat)),
    {
        let steps = flood_plan(max_width);
        let count = crate::schedule::jfa_pass_count(max_width);
        BindingPlan {
            dilate_h: DilateParams { max_width, is_vertical: false },
            dilate_v: DilateParams { max_width, is_vertical: true },
            steps,
            result: crate::schedule::final_seed_buffer(count),
        }
    }
}

} // verus!
