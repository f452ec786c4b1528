//! Escape-time fractal rendering core.
//!
//! The visible region of the complex plane is described by a
//! [`viewport::Viewport`], pixels are mapped to plane points by
//! [`mapping::pixel_to_point`], each point is classified by
//! [`escape::compute_escape_time`], and [`frame::Frame`] owns the colour
//! buffer that a windowing layer displays. All coordinates are fixed-point
//! integers counted in millionths (see [`fixed::SCALE`]), so every contract
//! is an exact statement about integer arithmetic.

pub mod colour;
pub mod escape;
pub mod fixed;
pub mod frame;
pub mod mapping;
pub mod viewport;
