//! The DRM/KMS side: ioctl request numbers, the records exchanged with the
//! kernel, and the setup of scanout buffers.

pub mod framebuffer;
pub mod sys;
