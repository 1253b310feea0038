//! Rendering into a frame buffer that is mapped into memory.

pub mod color;
pub mod fourcc;
pub mod frame;
pub mod pixels;
