//! One scanout buffer: a dumb GPU buffer registered as a KMS framebuffer.
//! These are the requests that set one up and the geometry of the result;
//! mapping it into memory is left to the caller.

use vstd::prelude::*;

use crate::drm::sys::{DrmModeCreateDumb, DrmModeFbCmd, DrmModeMapDumb};

verus! {

/// Bits per pixel of the buffers: 0x00RRGGBB pixels.
pub const BITS_PER_PIXEL: u32 = 32;

/// Color depth of the buffers: 8 bits for each of red, green, blue.
pub const COLOR_DEPTH: u32 = 24;

/// Bytes per pixel of the buffers.
pub const BYTES_PER_PIXEL: usize = 4;

/// A registered scanout buffer: its framebuffer id, how many pixels it
/// holds, and how many pixels apart its rows start.
pub struct Framebuffer {
    pub fb_id: u32,
    pub len: usize,
    pub pitch_pixels: usize,
}

impl Framebuffer {
    /// The buffer that framebuffer `fb_id` registers, given the reply to
    /// its creation: as many pixels as its byte size holds, rows as many
    /// pixels apart as its byte pitch holds.
    pub fn from_dumb(fb_id: u32, create: &DrmModeCreateDumb) -> (fb: Framebuffer)
        ensures
            fb.fb_id == fb_id,
            fb.len == (create.size as usize) as int / 4,
            fb.pitch_pixels == (create.pitch as usize) as int / 4,
    {
        let fb_size: usize = #[verifier::truncate] (create.size as usize);
        Framebuffer { fb_id, len: fb_size / BYTES_PER_PIXEL, pitch_pixels: create.pitch as usize / BYTES_PER_PIXEL }
    }
}

impl DrmModeCreateDumb {
    /// The request for a dumb buffer of `width` x `height` pixels of 32 bits.
    pub fn for_size(width: u32, height: u32) -> (r: DrmModeCreateDumb)
        ensures
            r.width == width,
            r.height == height,
            r.bpp == BITS_PER_PIXEL,
            r.flags == 0,
            r.handle == 0,
            r.pitch == 0,
            r.size == 0,
    {
        DrmModeCreateDumb { width, height, bpp: BITS_PER_PIXEL, flags: 0, handle: 0, pitch: 0, size: 0 }
    }
}

impl DrmModeFbCmd {
    /// The request that registers the dumb buffer of the reply `create`, of
    /// `width` x `height` pixels, as a framebuffer of 32 bits per pixel and
    /// depth 24.
    pub fn for_dumb(width: u32, height: u32, create: &DrmModeCreateDumb) -> (r: DrmModeFbCmd)
        ensures
            r.fb_id == 0,
            r.width == width,
            r.height == height,
            r.pitch == create.pitch,
            r.bpp == BITS_PER_PIXEL,
            r.depth == COLOR_DEPTH,
            r.handle == create.handle,
    {
        DrmModeFbCmd {
            fb_id: 0,
            width,
            height,
            pitch: create.pitch,
            bpp: BITS_PER_PIXEL,
            depth: COLOR_DEPTH,
            handle: create.handle,
        }
    }
}

impl DrmModeMapDumb {
    /// The request for the mmap offset of the dumb buffer of the reply
    /// `create`.
    pub fn for_dumb(create: &DrmModeCreateDumb) -> (r: DrmModeMapDumb)
        ensures
            r.handle == create.handle,
            r.pad == 0,
            r.offset == 0,
    {
        DrmModeMapDumb { handle: create.handle, pad: 0, offset: 0 }
    }
}

} // verus!
