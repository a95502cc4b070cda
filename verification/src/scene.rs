//! What the shader reads of a scene, as plain integers.
//!
//! Shapes, positions and directions stay with the geometry code. What it
//! reports of them arrives here as integers: a distance as an ordered key, a
//! cosine as a fixed-point coefficient, a colour as fixed-point intensities.

use vstd::prelude::*;
use crate::colour::Rgb;

verus! {

/// How a surface reflects light.
#[derive(Clone, Copy, Debug, PartialEq, Eq, Structural)]
pub struct Material {
    /// The share of each channel that is reflected diffusely.
    pub diffuse: Rgb,
    /// The share of each channel that is reflected in the highlight.
    pub specular: Rgb,
}

/// A scene primitive as the shader sees it: which one it is, and its material.
#[derive(Clone, Copy, Debug, PartialEq, Eq, Structural)]
pub struct Primitive {
    /// The caller's name for the primitive, handed back with the nearest hit.
    pub id: usize,
    pub mat: Material,
}

/// One primitive's report that a ray hits it.
#[derive(Clone, Copy, Debug, PartialEq, Eq, Structural)]
pub struct Intersection {
    /// The distance along the ray, as a key: of two hits, the nearer one has
    /// the smaller key. The bit pattern of a non-negative, finite IEEE 754
    /// number, read as an unsigned integer, is such a key.
    pub distance: u64,
    /// The primitive that was hit.
    pub primitive: Primitive,
}

/// One light as seen from the point that is being shaded.
#[derive(Debug, PartialEq, Eq)]
pub struct LightSample {
    /// What the light emits.
    pub colour: Rgb,
    /// What each primitive of the scene reports for the shadow ray, the ray
    /// from the shaded point towards the light.
    pub shadow: Vec<Option<Intersection>>,
    /// The cosine between the surface normal and the direction to the light,
    /// in units of 1/65536.
    pub diffuse: i32,
    /// The cosine between the mirrored light direction and the viewing ray,
    /// raised to the material's shininess, in units of 1/65536. Its sign is
    /// not used.
    pub highlight: i32,
}

} // verus!
