//! Painting primitives for NV12 frames.

pub mod color;
pub mod fill_rect;
pub mod frame;
pub mod glyph_blit;
pub mod pixel_laws;
