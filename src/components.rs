//! The outline settings that objects and cameras carry, and the settings
//! payload that the compositor reads.
//!
//! Colours are linear RGBA with 8-bit channels (255 stands for 1.0). Outline
//! widths are fixed-point pixel lengths in units of `1 / SUBPIXELS` pixel.

use crate::schedule::{jfa_pass_count, pass_count};
use vstd::prelude::*;

verus! {

/// Fixed-point units per pixel of an outline width or a distance.
pub const SUBPIXELS: u32 = 256;

/// A linear, unpremultiplied colour with 8-bit channels.
#[derive(Clone, Copy, Debug, PartialEq, Eq, Structural)]
pub struct Rgba {
    pub r: u8,
    pub g: u8,
    pub b: u8,
    pub a: u8,
}

/// The default outline colour: orange, `(1.0, 0.5, 0.0, 1.0)`.
pub open spec fn default_color() -> Rgba {
    Rgba { r: 255, g: 128, b: 0, a: 255 }
}

/// The default outline width: five pixels.
pub open spec fn default_width() -> int {
    5 * SUBPIXELS
}

fn orange() -> (r: Rgba)
    ensures
        r == default_color(),
{
    Rgba { r: 255, g: 128, b: 0, a: 255 }
}

/// Marks an object to be outlined, with the colour and width of its outline.
#[derive(Clone, Copy, Debug, PartialEq, Eq, Structural)]
pub struct MeshOutline {
    /// The colour of the outline.
    pub color: Rgba,
    /// The width of the outline, in `1 / SUBPIXELS` pixel.
    pub width: u32,
}

impl Default for MeshOutline {
    fn default() -> (r: Self)
        ensures
            r.color == default_color(),
            r.width == default_width(),
    {
        MeshOutline { color: orange(), width: 5 * SUBPIXELS }
    }
}

impl MeshOutline {
    /// An outline of the given colour and width.
    pub fn new(color: Rgba, width: u32) -> (r: Self)
        ensures
            r.color == color,
            r.width == width,
    {
        MeshOutline { color, width }
    }

    /// An outline of the given colour and the default width.
    pub fn with_color(color: Rgba) -> (r: Self)
        ensures
            r.color == color,
            r.width == default_width(),
    {
        MeshOutline { color, width: 5 * SUBPIXELS }
    }

    /// An outline of the default colour and the given width.
    pub fn with_width(width: u32) -> (r: Self)
        ensures
            r.color == default_color(),
            r.width == width,
    {
        MeshOutline { color: orange(), width }
    }
}

/// Enables and configures outline rendering on a camera.
#[derive(Clone, Copy, Debug, PartialEq, Eq, Structural)]
pub struct OutlineSettings {
    /// The largest outline width supported, in whole pixels. It bounds the
    /// region of interest and sets the number of flood passes.
    pub max_width: u32,
    /// Whether outlines are drawn.
    pub enabled: bool,
}

impl Default for OutlineSettings {
    fn default() -> (r: Self)
        ensures
            r.max_width == 64,
            r.enabled,
    {
        OutlineSettings { max_width: 64, enabled: true }
    }
}

impl OutlineSettings {
    /// The number of flood passes that `max_width` needs.
    pub fn jfa_pass_count(&self) -> (r: u32)
        ensures
            r == pass_count(self.max_width as nat),
    {
        jfa_pass_count(self.max_width)
    }
}

/// The settings payload of the compositor: one colour and width per camera.
#[derive(Clone, Copy, Debug, PartialEq, Eq, Structural)]
pub struct OutlineShaderSettings {
    pub color: Rgba,
    /// The outline width, in `1 / SUBPIXELS` pixel.
    pub width: u32,
    pub enabled: bool,
}

/// The payload for a camera: colour and width from the first outlined object,
/// or the defaults when there is none, and the camera's enabled flag.
pub open spec fn payload_of(first: Option<MeshOutline>, settings: OutlineSettings) -> OutlineShaderSettings {
    match first {
        Some(o) => OutlineShaderSettings { color: o.color, width: o.width, enabled: settings.enabled },
        None => OutlineShaderSettings {
            color: default_color(),
            width: default_width() as u32,
            enabled: settings.enabled,
        },
    }
}

impl OutlineShaderSettings {
    /// The payload for a camera with `settings`, where `first` is the first of
    /// the outlined objects, if any.
    pub fn for_camera(first: Option<MeshOutline>, settings: &OutlineSettings) -> (r: Self)
        ensures
            r == payload_of(first, *settings),
    {
        match first {
            Some(o) => OutlineShaderSettings { color: o.color, width: o.width, enabled: settings.enabled },
            None => OutlineShaderSettings { color: orange(), width: 5 * SUBPIXELS, enabled: settings.enabled },
        }
    }
}

} // verus!
