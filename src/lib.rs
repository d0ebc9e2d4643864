//! Verified core of a CPU ray tracer: the pixel buffer and its byte layout,
//! the sequential and parallel pixel loops, nearest-hit selection, and the
//! bookkeeping that builds a scene (render settings, reading the lines of a
//! scene description, the transform stack, triangle vertex lookup).
//!
//! The floating-point geometry (camera rays, transforms, sphere and triangle
//! intersection) is supplied by the caller as a per-pixel color function and
//! as ordering keys of hit distances.
pub mod color;
pub mod directive;
pub mod image;
pub mod scene;
pub mod tracer;
