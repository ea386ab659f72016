//! The fixed-layout records that the drawing calls emit.

use crate::geometry::{Color, DeviceRect, MeshPoint, Point};
use vstd::prelude::*;

verus! {

/// A rectangle in the texture atlas.
#[derive(Clone, Copy, Debug, PartialEq, Eq, Structural)]
pub struct AtlasRect {
    pub x0: u32,
    pub y0: u32,
    pub x1: u32,
    pub y1: u32,
}

/// A filled quad.
#[derive(Clone, Copy, Debug, PartialEq, Eq, Structural)]
pub struct Quad {
    pub rect: DeviceRect,
    pub color: Color,
    pub depth: u32,
    pub clip: DeviceRect,
}

/// A blurred quad: `rect` is the outer falloff region, `blur_rect` the inner
/// sharp rectangle.
#[derive(Clone, Copy, Debug, PartialEq, Eq, Structural)]
pub struct BlurQuad {
    pub rect: DeviceRect,
    pub blur_rect: DeviceRect,
    pub blur_radius: u32,
    pub color: Color,
    pub depth: u32,
    pub clip: DeviceRect,
}

/// A textured quad.
#[derive(Clone, Copy, Debug, PartialEq, Eq, Structural)]
pub struct Tex {
    pub rect: DeviceRect,
    pub tex_rect: AtlasRect,
    pub color: Color,
    pub depth: u32,
    pub clip: DeviceRect,
}

/// A vertex of a tessellated mesh.
#[derive(Clone, Copy, Debug, PartialEq, Eq, Structural)]
pub struct Vertex {
    pub pos: MeshPoint,
    pub color: Color,
    pub depth: u32,
    pub clip: DeviceRect,
}

/// A snapshot of the translation and the clip in effect, taken whenever
/// either changes.
#[derive(Clone, Copy, Debug, PartialEq, Eq, Structural)]
pub struct Primitive {
    pub translate: Point,
    pub clip_rect: DeviceRect,
}

impl AtlasRect {
    pub fn new(x0: u32, y0: u32, x1: u32, y1: u32) -> (r: AtlasRect)
        ensures
            r == (AtlasRect { x0, y0, x1, y1 }),
    {
        AtlasRect { x0, y0, x1, y1 }
    }
}

} // verus!
