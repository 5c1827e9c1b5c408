//! Software pixel drawing on in-memory 2D surfaces.
//!
//! [`target::DrawTarget`] is the capability through which pixels are drawn: one required
//! primitive, `draw_pixel`, and derived rectangle operations built from it. Out-of-bounds
//! positions are never an error; they are skipped. [`buffer::Framebuffer`] binds a row-major
//! grid of packed RGBA colors to that capability.

pub mod blit;
pub mod buffer;
pub mod color;
pub mod geom;
pub mod grid;
pub mod target;
