//! The integer core of a small offline ray tracer.
//!
//! Geometry (rays, normals, intersection tests) is done elsewhere, in floating
//! point. This crate takes what the geometry reports, as integers, and does the
//! rest exactly: it enumerates the pixel grid, picks the nearest of the reported
//! intersections, evaluates Phong shading with hard shadows in fixed-point
//! arithmetic, drives the per-pixel evaluation over the raster and writes the
//! result as a plain-text pixmap.

pub mod colour;
pub mod pixels;
pub mod ppm;
pub mod render;
pub mod resolver;
pub mod scene;
pub mod shader;
