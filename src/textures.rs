//! The texture set manager: the sizes of the five working buffers of a
//! camera, allocated at first use and kept equal to the render target.

use crate::grid::Extent;
use vstd::prelude::*;

verus! {

/// The size allocated when the render target cannot be resolved at first use.
pub open spec fn fallback_extent() -> Extent {
    Extent { width: 1920, height: 1080 }
}

/// The size of a first allocation: the target with each side at least 1, or
/// the fallback size.
pub open spec fn initial_extent(target: Option<Extent>) -> Extent {
    match target {
        Some(e) => Extent {
            width: if e.width == 0 { 1 } else { e.width },
            height: if e.height == 0 { 1 } else { e.height },
        },
        None => fallback_extent(),
    }
}

/// Whether a resolved target size can be resized to: it exists and has no
/// zero side.
pub open spec fn usable_target(target: Option<Extent>) -> bool {
    match target {
        Some(e) => e.width > 0 && e.height > 0,
        None => false,
    }
}

/// The working buffers of one camera, by their allocated sizes: the
/// silhouette, the two region-of-interest masks and the two seed buffers.
#[derive(Clone, Copy, Debug, PartialEq, Eq, Structural)]
pub struct WorkingTextureSet {
    pub silhouette: Extent,
    pub mask_a: Extent,
    pub mask_b: Extent,
    pub seed_a: Extent,
    pub seed_b: Extent,
}

/// Which of the five buffers a resize reallocated.
#[derive(Clone, Copy, Debug, PartialEq, Eq, Structural)]
pub struct ResizedBuffers {
    pub silhouette: bool,
    pub mask_a: bool,
    pub mask_b: bool,
    pub seed_a: bool,
    pub seed_b: bool,
}

impl WorkingTextureSet {
    /// Whether all five buffers have size `e`.
    pub open spec fn all_sized(self, e: Extent) -> bool {
        &&& self.silhouette == e
        &&& self.mask_a == e
        &&& self.mask_b == e
        &&& self.seed_a == e
        &&& self.seed_b == e
    }

    /// Allocates all five buffers at the target size, or at the fallback size
    /// where the target could not be resolved.
    pub fn allocate(target: Option<Extent>) -> (r: Self)
        ensures
            r.all_sized(initial_extent(target)),
    {
        let e = match target {
            Some(t) => Extent {
                width: if t.width == 0 { 1 } else { t.width },
                height: if t.height == 0 { 1 } else { t.height },
            },
            None => Extent { width: 1920, height: 1080 },
        };
        WorkingTextureSet { silhouette: e, mask_a: e, mask_b: e, seed_a: e, seed_b: e }
    }

    /// Whether all five buffers have size `e`.
    pub fn matches(&self, e: Extent) -> (r: bool)
        ensures
            r == self.all_sized(e),
    {
        self.silhouette == e && self.mask_a == e && self.mask_b == e && self.seed_a == e
            && self.seed_b == e
    }

    /// Brings every buffer to the target size, reallocating those whose size
    /// differs. A target that could not be resolved, or that has a zero side,
    /// changes nothing.
    pub fn resize_to(&mut self, target: Option<Extent>) -> (r: ResizedBuffers)
        ensures
            usable_target(target) ==> final(self).all_sized(target.unwrap()),
            !usable_target(target) ==> *final(self) == *old(self),
            r.silhouette == (usable_target(target) && old(self).silhouette != target.unwrap()),
            r.mask_a == (usable_target(target) && old(self).mask_a != target.unwrap()),
            r.mask_b == (usable_target(target) && old(self).mask_b != target.unwrap()),
            r.seed_a == (usable_target(target) && old(self).seed_a != target.unwrap()),
            r.seed_b == (usable_target(target) && old(self).seed_b != target.unwrap()),
    {
        match target {
            Some(e) => {
                if e.width == 0 || e.height == 0 {
                    return ResizedBuffers {
                        silhouette: false,
                        mask_a: false,
                        mask_b: false,
                        seed_a: false,
                        seed_b: false,
                    };
                }
                let r = ResizedBuffers {
                    silhouette: self.silhouette != e,
                    mask_a: self.mask_a != e,
                    mask_b: self.mask_b != e,
                    seed_a: self.seed_a != e,
                    seed_b: self.seed_b != e,
                };
                self.silhouette = e;
                self.mask_a = e;
                self.mask_b = e;
                self.seed_a = e;
                self.seed_b = e;
                r
            },
            None => ResizedBuffers {
                silhouette: false,
                mask_a: false,
                mask_b: false,
                seed_a: false,
                seed_b: false,
            },
        }
    }
}

} // verus!
