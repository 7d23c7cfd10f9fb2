//! Software rasterizing into a linear pixel buffer, and the plain-data side
//! of driving a display through DRM/KMS dumb buffers with page flipping.

pub mod display;
pub mod drm;
pub mod laws;
pub mod paint;
pub mod rasterizer;
