use lib::display::{FlipAction, Presenter, CONNECTOR_CONNECTED};
use lib::drm::framebuffer::{Framebuffer, BITS_PER_PIXEL, COLOR_DEPTH};
use lib::drm::sys::{
    iowr, DrmModeCardRes, DrmModeCreateDumb, DrmModeCrtc, DrmModeCrtcPageFlip, DrmModeFbCmd,
    DrmModeGetConnector, DrmModeGetEncoder, DrmModeMapDumb, DrmModeModeinfo, DRM_IOCTL_MODE_ADDFB,
    DRM_IOCTL_MODE_CREATE_DUMB, DRM_IOCTL_MODE_GETCONNECTOR, DRM_IOCTL_MODE_GETENCODER,
    DRM_IOCTL_MODE_GETRESOURCES, DRM_IOCTL_MODE_MAP_DUMB, DRM_IOCTL_MODE_PAGE_FLIP,
    DRM_IOCTL_MODE_SETCRTC, DRM_MODE_CARD_RES_SIZE, DRM_MODE_CREATE_DUMB_SIZE,
    DRM_MODE_CRTC_PAGE_FLIP_SIZE, DRM_MODE_CRTC_SIZE, DRM_MODE_FB_CMD_SIZE,
    DRM_MODE_GET_CONNECTOR_SIZE, DRM_MODE_GET_ENCODER_SIZE, DRM_MODE_MAP_DUMB_SIZE,
    DRM_MODE_PAGE_FLIP_EVENT,
};

#[test]
fn iowr_layout() {
    assert_eq!(iowr(0xA0, 64), 0xC040_64A0);
    assert_eq!(iowr(0, 0), 0xC000_6400);
    let r = iowr(0x12, 0x345);
    assert_eq!(r >> 30, 3);
    assert_eq!((r >> 16) & 0x3fff, 0x345);
    assert_eq!((r >> 8) & 0xff, 0x64);
    assert_eq!(r & 0xff, 0x12);
}

#[test]
fn request_numbers_match_their_records() {
    assert_eq!(DRM_IOCTL_MODE_GETRESOURCES, iowr(0xA0, DRM_MODE_CARD_RES_SIZE));
    assert_eq!(DRM_IOCTL_MODE_GETCONNECTOR, iowr(0xA7, DRM_MODE_GET_CONNECTOR_SIZE));
    assert_eq!(DRM_IOCTL_MODE_GETENCODER, iowr(0xA6, DRM_MODE_GET_ENCODER_SIZE));
    assert_eq!(DRM_IOCTL_MODE_CREATE_DUMB, iowr(0xB2, DRM_MODE_CREATE_DUMB_SIZE));
    assert_eq!(DRM_IOCTL_MODE_MAP_DUMB, iowr(0xB3, DRM_MODE_MAP_DUMB_SIZE));
    assert_eq!(DRM_IOCTL_MODE_ADDFB, iowr(0xAE, DRM_MODE_FB_CMD_SIZE));
    assert_eq!(DRM_IOCTL_MODE_SETCRTC, iowr(0xA2, DRM_MODE_CRTC_SIZE));
    assert_eq!(DRM_IOCTL_MODE_PAGE_FLIP, iowr(0xB0, DRM_MODE_CRTC_PAGE_FLIP_SIZE));
    // Values of the kernel's headers.
    assert_eq!(DRM_IOCTL_MODE_SETCRTC, 0xC068_64A2);
    assert_eq!(DRM_IOCTL_MODE_PAGE_FLIP, 0xC018_64B0);
}

#[test]
fn records_default_to_zero() {
    let r = DrmModeCardRes::default();
    assert_eq!((r.fb_id_ptr, r.count_connectors, r.max_height), (0, 0, 0));
    let m = DrmModeModeinfo::default();
    assert_eq!((m.clock, m.hdisplay, m.vrefresh, m.name), (0, 0, 0, [0u8; 32]));
    let c = DrmModeGetConnector::default();
    assert_eq!((c.connection, c.count_modes, c.pad), (0, 0, 0));
    let e = DrmModeGetEncoder::default();
    assert_eq!((e.encoder_id, e.crtc_id), (0, 0));
    let crtc = DrmModeCrtc::default();
    assert_eq!((crtc.fb_id, crtc.mode_valid, crtc.mode.hdisplay), (0, 0, 0));
    let f = DrmModeCrtcPageFlip::default();
    assert_eq!((f.flags, f.user_data), (0, 0));
    let d = DrmModeCreateDumb::default();
    assert_eq!((d.size, d.pitch), (0, 0));
    let md = DrmModeMapDumb::default();
    assert_eq!(md.offset, 0);
    let fb = DrmModeFbCmd::default();
    assert_eq!(fb.fb_id, 0);
}

#[test]
fn dumb_buffer_requests() {
    let create = DrmModeCreateDumb::for_size(1920, 1080);
    assert_eq!((create.width, create.height, create.bpp, create.handle), (1920, 1080, 32, 0));
    let reply = DrmModeCreateDumb { handle: 5, pitch: 7680, size: 8_294_400, ..create };
    let addfb = DrmModeFbCmd::for_dumb(1920, 1080, &reply);
    assert_eq!(
        (addfb.width, addfb.height, addfb.bpp, addfb.depth, addfb.pitch, addfb.handle, addfb.fb_id),
        (1920, 1080, BITS_PER_PIXEL, COLOR_DEPTH, 7680, 5, 0)
    );
    assert_eq!((BITS_PER_PIXEL, COLOR_DEPTH), (32, 24));
    let map = DrmModeMapDumb::for_dumb(&reply);
    assert_eq!((map.handle, map.pad, map.offset), (5, 0, 0));
    let fb = Framebuffer::from_dumb(42, &reply);
    assert_eq!((fb.fb_id, fb.len, fb.pitch_pixels), (42, 2_073_600, 1920));
}

#[test]
fn framebuffer_rounds_down_partial_pixels() {
    let reply = DrmModeCreateDumb { width: 3, height: 1, bpp: 32, flags: 0, handle: 1, pitch: 14, size: 15 };
    let fb = Framebuffer::from_dumb(1, &reply);
    assert_eq!((fb.len, fb.pitch_pixels), (3, 3));
}

#[test]
fn usable_connectors() {
    let mut c = DrmModeGetConnector::default();
    assert!(!c.is_usable());
    c.connection = CONNECTOR_CONNECTED;
    assert!(!c.is_usable());
    c.count_modes = 3;
    assert!(c.is_usable());
    c.connection = 2;
    assert!(!c.is_usable());
}

#[test]
fn scanout_and_flip_requests() {
    let mut mode = DrmModeModeinfo::default();
    mode.hdisplay = 1920;
    mode.vdisplay = 1080;
    let crtc = DrmModeCrtc::for_scanout(31, 77, 0x1000, mode);
    assert_eq!(
        (crtc.crtc_id, crtc.fb_id, crtc.set_connectors_ptr, crtc.count_connectors, crtc.mode_valid, crtc.x, crtc.y),
        (31, 77, 0x1000, 1, 1, 0, 0)
    );
    assert_eq!((crtc.mode.hdisplay, crtc.mode.vdisplay), (1920, 1080));
    let flip = DrmModeCrtcPageFlip::for_fb(31, 78);
    assert_eq!((flip.crtc_id, flip.fb_id, flip.flags, flip.reserved, flip.user_data), (31, 78, DRM_MODE_PAGE_FLIP_EVENT, 0, 0));
}

#[test]
fn presenter_alternates_buffers() {
    let mut p = Presenter::new();
    assert_eq!((p.front(), p.back(), p.frame()), (0, 1, 0));
    assert_eq!(p.presented(0), FlipAction::AwaitFlipEvent);
    assert_eq!((p.front(), p.back(), p.frame()), (1, 0, 1));
    assert_eq!(p.presented(-22), FlipAction::ReassertCrtc);
    assert_eq!((p.front(), p.back(), p.frame()), (0, 1, 2));
}

#[test]
fn presenter_counts_frames() {
    let mut p = Presenter::new();
    for _ in 0..5 {
        p.presented(0);
    }
    assert_eq!((p.front(), p.frame()), (1, 5));
}
