//! Silhouette outlines computed with the jump flood algorithm.
//!
//! The library models every stage of the outline effect on integer pixel
//! grids: the region-of-interest dilation, seed initialisation, the masked
//! flood passes, and the compositor. Around those stages it holds the
//! bookkeeping that drives a GPU implementation: the flood schedule, the
//! per-camera working texture sizes, and the binding cache.

pub mod cache;
pub mod components;
pub mod composite;
pub mod dilate;
pub mod flood;
pub mod grid;
pub mod pipeline;
pub mod schedule;
pub mod seed;
pub mod textures;

pub use cache::{BindingPlan, CacheAction, CacheKey, DilateParams, ResourceCache};
pub use components::{MeshOutline, OutlineSettings, OutlineShaderSettings, Rgba, SUBPIXELS};
pub use composite::{ANTIALIAS_BAND, FULL_COVERAGE};
pub use grid::{Extent, Pixel};
pub use pipeline::{render_outline, FramePlan, OutlineCamera};
pub use schedule::{FloodStep, SeedBuffer};
pub use textures::{ResizedBuffers, WorkingTextureSet};
