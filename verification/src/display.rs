//! The decisions of a double-buffered display loop: which connector to
//! drive, which buffer to draw into, what to ask of the kernel after each
//! frame.

use vstd::prelude::*;

use crate::drm::sys::{
    DrmModeCrtc, DrmModeCrtcPageFlip, DrmModeGetConnector, DrmModeModeinfo,
    DRM_MODE_PAGE_FLIP_EVENT,
};

verus! {

/// The `connection` value of a connector with a display attached.
pub const CONNECTOR_CONNECTED: u32 = 1;

impl DrmModeGetConnector {
    /// Whether a display is attached to this connector and offers at least
    /// one mode.
    pub fn is_usable(&self) -> (usable: bool)
        ensures
            usable == (self.connection == CONNECTOR_CONNECTED && self.count_modes != 0),
    {
        !(self.connection != CONNECTOR_CONNECTED || self.count_modes == 0)
    }
}

impl DrmModeCrtc {
    /// The request that makes CRTC `crtc_id` scan framebuffer `fb_id` out
    /// from its top-left corner, in mode `mode`, to the one connector whose
    /// id is stored at address `connector_ptr`.
    pub fn for_scanout(crtc_id: u32, fb_id: u32, connector_ptr: u64, mode: DrmModeModeinfo) -> (r: DrmModeCrtc)
        ensures
            r.set_connectors_ptr == connector_ptr,
            r.count_connectors == 1,
            r.crtc_id == crtc_id,
            r.fb_id == fb_id,
            r.x == 0,
            r.y == 0,
            r.gamma_size == 0,
            r.mode_valid == 1,
            r.mode == mode,
    {
        DrmModeCrtc {
            set_connectors_ptr: connector_ptr,
            count_connectors: 1,
            crtc_id,
            fb_id,
            x: 0,
            y: 0,
            gamma_size: 0,
            mode_valid: 1,
            mode,
        }
    }
}

impl DrmModeCrtcPageFlip {
    /// The request that flips CRTC `crtc_id` to framebuffer `fb_id` at the
    /// next vertical blank and sends an event when it has.
    pub fn for_fb(crtc_id: u32, fb_id: u32) -> (r: DrmModeCrtcPageFlip)
        ensures
            r.crtc_id == crtc_id,
            r.fb_id == fb_id,
            r.flags == DRM_MODE_PAGE_FLIP_EVENT,
            r.reserved == 0,
            r.user_data == 0,
    {
        DrmModeCrtcPageFlip { crtc_id, fb_id, flags: DRM_MODE_PAGE_FLIP_EVENT, reserved: 0, user_data: 0 }
    }
}

/// What to do after a page flip was requested.
#[derive(PartialEq, Eq, Debug, Structural)]
pub enum FlipAction {
    /// The flip was accepted: wait for its event.
    AwaitFlipEvent,
    /// The flip was refused: set the CRTC to the drawn buffer directly.
    ReassertCrtc,
}

/// The state of a two-buffer display loop: which buffer is on screen and how
/// many frames have been presented (counting modulo 2^32).
pub struct Presenter {
    front: usize,
    frame: u32,
}

impl Presenter {
    #[verifier::type_invariant]
    spec fn front_is_a_buffer(self) -> bool {
        self.front < 2
    }

    /// The buffer on screen: 0 or 1.
    pub closed spec fn front_spec(self) -> usize {
        self.front
    }

    /// The number of frames presented, modulo 2^32.
    pub closed spec fn frame_spec(self) -> u32 {
        self.frame
    }

    /// Buffer 0 on screen, no frame presented.
    pub fn new() -> (p: Presenter)
        ensures
            p.front_spec() == 0,
            p.frame_spec() == 0,
    {
        Presenter { front: 0, frame: 0 }
    }

    /// The buffer on screen.
    pub fn front(&self) -> (b: usize)
        ensures
            b == self.front_spec(),
            b < 2,
    {
        proof {
            use_type_invariant(self);
        }
        self.front
    }

    /// The buffer to draw the next frame into: the one not on screen.
    pub fn back(&self) -> (b: usize)
        ensures
            b == 1 - self.front_spec(),
    {
        proof {
            use_type_invariant(self);
        }
        let front = self.front;
        assert(front < 2 ==> front ^ 1 == 1 - front) by (bit_vector);
        front ^ 1
    }

    /// The number of the frame being drawn.
    pub fn frame(&self) -> (n: u32)
        ensures
            n == self.frame_spec(),
    {
        self.frame
    }

    /// Records that the back buffer was presented, given the result of the
    /// page flip request (0 when it was accepted). Either way the back
    /// buffer is now on screen and the frame count moves on.
    pub fn presented(&mut self, flip_ret: i32) -> (action: FlipAction)
        ensures
            action == (if flip_ret == 0 {
                FlipAction::AwaitFlipEvent
            } else {
                FlipAction::ReassertCrtc
            }),
            final(self).front_spec() == 1 - old(self).front_spec(),
            final(self).frame_spec() == (old(self).frame_spec() + 1) % 0x1_0000_0000,
    {
        proof {
            use_type_invariant(&*self);
        }
        let back = self.back();
        let action = if flip_ret == 0 {
            FlipAction::AwaitFlipEvent
        } else {
            FlipAction::ReassertCrtc
        };
        self.front = back;
        self.frame = self.frame.wrapping_add(1);
        action
    }
}

/// Presenting two frames puts the buffer that was on screen back on screen,
/// and counts two frames.
pub proof fn lemma_two_presentations(p0: Presenter, p1: Presenter, p2: Presenter)
    requires
        p1.front_spec() == 1 - p0.front_spec(),
        p1.frame_spec() == (p0.frame_spec() + 1) % 0x1_0000_0000,
        p2.front_spec() == 1 - p1.front_spec(),
        p2.frame_spec() == (p1.frame_spec() + 1) % 0x1_0000_0000,
    ensures
        p2.front_spec() == p0.front_spec(),
        p2.frame_spec() == (p0.frame_spec() + 2) % 0x1_0000_0000,
{
}

} // verus!
