//! Verified core of a small recursive ray tracer.
//!
//! The floating-point geometry (vector arithmetic, ray-primitive
//! intersection, Blinn-Phong shading) lives outside this crate; here stand
//! the exactly-specifiable parts of the pipeline: the checkerboard pattern
//! decision for the floor plane, the 8-bit clamp of quantized color
//! channels, the row-flipped pixel-buffer layout, and the textual image
//! emission.

pub mod checker;
pub mod image;
