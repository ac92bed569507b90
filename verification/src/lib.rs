//! An incremental polar cache of escape-time depths for exploring the
//! Mandelbrot set: rings of samples around an origin, filled ring by ring
//! under a time budget and read back through an accessor that answers `0`
//! wherever nothing is cached.
//!
//! - `scalar`: the floating-point operations, one relation to each.
//! - `complex`: complex numbers over the scalar.
//! - `mapper`: pixel to plane, plane to ring and slot, and back.
//! - `render`: the escape-time tracer, the cache and its renderer.
//! - `shade`: depth to colour.
//! - `frame`: pixel buffers.
//! - `view`, `camera`: painting the cache into a frame.
//! - `shared`: what the producer of rings and the display agree on.
//! - `canvas`: a fixed-size grid of samples.
//! - `clock`: the time budget.

pub mod camera;
pub mod canvas;
pub mod clock;
pub mod complex;
pub mod frame;
pub mod mapper;
pub mod render;
pub mod scalar;
pub mod shade;
pub mod shared;
pub mod view;
