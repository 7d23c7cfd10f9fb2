//! DRM/KMS ioctl interface: request numbers and the plain-data records that
//! the kernel reads and fills. The byte layout of these records is the C
//! layout of the kernel's UAPI structs; the sizes below are those layouts'
//! sizes.

use vstd::prelude::*;

verus! {

/// The ioctl type byte of DRM requests (`'d'`).
pub const DRM_IOCTL_BASE: u64 = 0x64;

/// Size in bytes of the C layout of `DrmModeCardRes`.
pub const DRM_MODE_CARD_RES_SIZE: u64 = 64;

/// Size in bytes of the C layout of `DrmModeGetConnector`.
pub const DRM_MODE_GET_CONNECTOR_SIZE: u64 = 80;

/// Size in bytes of the C layout of `DrmModeGetEncoder`.
pub const DRM_MODE_GET_ENCODER_SIZE: u64 = 20;

/// Size in bytes of the C layout of `DrmModeCreateDumb`.
pub const DRM_MODE_CREATE_DUMB_SIZE: u64 = 32;

/// Size in bytes of the C layout of `DrmModeMapDumb`.
pub const DRM_MODE_MAP_DUMB_SIZE: u64 = 16;

/// Size in bytes of the C layout of `DrmModeFbCmd`.
pub const DRM_MODE_FB_CMD_SIZE: u64 = 28;

/// Size in bytes of the C layout of `DrmModeCrtc`.
pub const DRM_MODE_CRTC_SIZE: u64 = 104;

/// Size in bytes of the C layout of `DrmModeCrtcPageFlip`.
pub const DRM_MODE_CRTC_PAGE_FLIP_SIZE: u64 = 24;

/// Size in bytes of the C layout of `DrmModeModeinfo`.
pub const DRM_MODE_MODEINFO_SIZE: u64 = 68;

/// Size in bytes of the C layout of `DrmEventVblank`.
pub const DRM_EVENT_VBLANK_SIZE: u64 = 32;

/// The request number of a read-write DRM ioctl: direction bits `0b11` at
/// bit 30, the argument's size from bit 16, the type byte `'d'` at bit 8,
/// the command number in the low byte.
pub open spec fn iowr_value(nr: u64, size: u64) -> u64 {
    (3u64 << 30u64) | (size << 16u64) | (DRM_IOCTL_BASE << 8u64) | nr
}

/// Builds the request number of a read-write DRM ioctl for command `nr`
/// whose argument is `size` bytes long.
pub fn iowr(nr: u64, size: u64) -> (r: u64)
    ensures
        r == iowr_value(nr, size),
        nr < 0x100 && size < 0x4000 ==> r == 0xC000_0000 + size * 0x1_0000 + 0x6400 + nr,
{
    proof {
        lemma_iowr_sum(nr, size);
    }
    (3u64 << 30) | (size << 16) | (DRM_IOCTL_BASE << 8) | nr
}

/// Within their fields, the bits of a request number add up.
proof fn lemma_iowr_sum(nr: u64, size: u64)
    ensures
        nr < 0x100 && size < 0x4000 ==> iowr_value(nr, size) == 0xC000_0000 + size * 0x1_0000 + 0x6400 + nr,
{
    assert(nr < 0x100 && size < 0x4000 ==> (3u64 << 30u64) | (size << 16u64) | (0x64u64 << 8u64) | nr
        == 0xC000_0000 + size * 0x1_0000 + 0x6400 + nr) by (bit_vector);
}

/// The fields of a request number read back what built it: the direction,
/// the argument size, the type byte and the command number.
pub proof fn lemma_iowr_fields(nr: u64, size: u64)
    requires
        nr < 0x100,
        size < 0x4000,
    ensures
        iowr_value(nr, size) >> 30u64 == 3,
        (iowr_value(nr, size) >> 16u64) & 0x3fff == size,
        (iowr_value(nr, size) >> 8u64) & 0xff == DRM_IOCTL_BASE,
        iowr_value(nr, size) & 0xff == nr,
{
    assert(nr < 0x100 && size < 0x4000 ==> {
        let r = (3u64 << 30u64) | (size << 16u64) | (0x64u64 << 8u64) | nr;
        &&& r >> 30u64 == 3
        &&& (r >> 16u64) & 0x3fff == size
        &&& (r >> 8u64) & 0xff == 0x64
        &&& r & 0xff == nr
    }) by (bit_vector);
}

pub const DRM_IOCTL_MODE_GETRESOURCES: u64 = 0xC040_64A0;

pub const DRM_IOCTL_MODE_GETCONNECTOR: u64 = 0xC050_64A7;

pub const DRM_IOCTL_MODE_GETENCODER: u64 = 0xC014_64A6;

pub const DRM_IOCTL_MODE_CREATE_DUMB: u64 = 0xC020_64B2;

pub const DRM_IOCTL_MODE_MAP_DUMB: u64 = 0xC010_64B3;

pub const DRM_IOCTL_MODE_ADDFB: u64 = 0xC01C_64AE;

pub const DRM_IOCTL_MODE_SETCRTC: u64 = 0xC068_64A2;

pub const DRM_IOCTL_MODE_PAGE_FLIP: u64 = 0xC018_64B0;

pub const DRM_MODE_PAGE_FLIP_EVENT: u32 = 0x01;

/// Each request number is the read-write request for its command number and
/// the size of its argument record.
pub proof fn lemma_request_numbers()
    ensures
        DRM_IOCTL_MODE_GETRESOURCES == iowr_value(0xA0, DRM_MODE_CARD_RES_SIZE),
        DRM_IOCTL_MODE_GETCONNECTOR == iowr_value(0xA7, DRM_MODE_GET_CONNECTOR_SIZE),
        DRM_IOCTL_MODE_GETENCODER == iowr_value(0xA6, DRM_MODE_GET_ENCODER_SIZE),
        DRM_IOCTL_MODE_CREATE_DUMB == iowr_value(0xB2, DRM_MODE_CREATE_DUMB_SIZE),
        DRM_IOCTL_MODE_MAP_DUMB == iowr_value(0xB3, DRM_MODE_MAP_DUMB_SIZE),
        DRM_IOCTL_MODE_ADDFB == iowr_value(0xAE, DRM_MODE_FB_CMD_SIZE),
        DRM_IOCTL_MODE_SETCRTC == iowr_value(0xA2, DRM_MODE_CRTC_SIZE),
        DRM_IOCTL_MODE_PAGE_FLIP == iowr_value(0xB0, DRM_MODE_CRTC_PAGE_FLIP_SIZE),
{
    lemma_iowr_sum(0xA0, DRM_MODE_CARD_RES_SIZE);
    lemma_iowr_sum(0xA7, DRM_MODE_GET_CONNECTOR_SIZE);
    lemma_iowr_sum(0xA6, DRM_MODE_GET_ENCODER_SIZE);
    lemma_iowr_sum(0xB2, DRM_MODE_CREATE_DUMB_SIZE);
    lemma_iowr_sum(0xB3, DRM_MODE_MAP_DUMB_SIZE);
    lemma_iowr_sum(0xAE, DRM_MODE_FB_CMD_SIZE);
    lemma_iowr_sum(0xA2, DRM_MODE_CRTC_SIZE);
    lemma_iowr_sum(0xB0, DRM_MODE_CRTC_PAGE_FLIP_SIZE);
}

/// Resource ids of a card: where the kernel writes the id arrays and how many fit.
pub struct DrmModeCardRes {
    pub fb_id_ptr: u64,
    pub crtc_id_ptr: u64,
    pub connector_id_ptr: u64,
    pub encoder_id_ptr: u64,
    pub count_fbs: u32,
    pub count_crtcs: u32,
    pub count_connectors: u32,
    pub count_encoders: u32,
    pub min_width: u32,
    pub max_width: u32,
    pub min_height: u32,
    pub max_height: u32,
}

impl DrmModeCardRes {
    /// Whether every field is zero.
    pub open spec fn is_zeroed(self) -> bool {
        &&& self.fb_id_ptr == 0
        &&& self.crtc_id_ptr == 0
        &&& self.connector_id_ptr == 0
        &&& self.encoder_id_ptr == 0
        &&& self.count_fbs == 0
        &&& self.count_crtcs == 0
        &&& self.count_connectors == 0
        &&& self.count_encoders == 0
        &&& self.min_width == 0
        &&& self.max_width == 0
        &&& self.min_height == 0
        &&& self.max_height == 0
    }
}

impl Default for DrmModeCardRes {
    /// The record with every field zero.
    fn default() -> (r: Self)
        ensures
            r.is_zeroed(),
    {
        DrmModeCardRes {
            fb_id_ptr: 0,
            crtc_id_ptr: 0,
            connector_id_ptr: 0,
            encoder_id_ptr: 0,
            count_fbs: 0,
            count_crtcs: 0,
            count_connectors: 0,
            count_encoders: 0,
            min_width: 0,
            max_width: 0,
            min_height: 0,
            max_height: 0,
        }
    }
}

/// A display mode (timings, refresh rate, name).
#[derive(Clone, Copy)]
pub struct DrmModeModeinfo {
    pub clock: u32,
    pub hdisplay: u16,
    pub hsync_start: u16,
    pub hsync_end: u16,
    pub htotal: u16,
    pub hskew: u16,
    pub vdisplay: u16,
    pub vsync_start: u16,
    pub vsync_end: u16,
    pub vtotal: u16,
    pub vscan: u16,
    pub vrefresh: u32,
    pub flags: u32,
    pub kind: u32,
    pub name: [u8; 32],
}

impl DrmModeModeinfo {
    /// Whether every field is zero.
    pub open spec fn is_zeroed(self) -> bool {
        &&& self.clock == 0
        &&& self.hdisplay == 0
        &&& self.hsync_start == 0
        &&& self.hsync_end == 0
        &&& self.htotal == 0
        &&& self.hskew == 0
        &&& self.vdisplay == 0
        &&& self.vsync_start == 0
        &&& self.vsync_end == 0
        &&& self.vtotal == 0
        &&& self.vscan == 0
        &&& self.vrefresh == 0
        &&& self.flags == 0
        &&& self.kind == 0
        &&& self.name@ == Seq::new(32, |i: int| 0u8)
    }
}

impl Default for DrmModeModeinfo {
    /// The record with every field zero.
    fn default() -> (r: Self)
        ensures
            r.is_zeroed(),
    {
        let name = [0u8; 32];
        assert(name@ =~= Seq::new(32, |i: int| 0u8));
        DrmModeModeinfo {
            clock: 0,
            hdisplay: 0,
            hsync_start: 0,
            hsync_end: 0,
            htotal: 0,
            hskew: 0,
            vdisplay: 0,
            vsync_start: 0,
            vsync_end: 0,
            vtotal: 0,
            vscan: 0,
            vrefresh: 0,
            flags: 0,
            kind: 0,
            name,
        }
    }
}

/// State of a connector, and where the kernel writes its modes and encoders.
pub struct DrmModeGetConnector {
    pub encoders_ptr: u64,
    pub modes_ptr: u64,
    pub props_ptr: u64,
    pub prop_values_ptr: u64,
    pub count_modes: u32,
    pub count_props: u32,
    pub count_encoders: u32,
    pub encoder_id: u32,
    pub connector_id: u32,
    pub connector_type: u32,
    pub connector_type_id: u32,
    pub connection: u32,
    pub mm_width: u32,
    pub mm_height: u32,
    pub subpixel: u32,
    pub pad: u32,
}

impl DrmModeGetConnector {
    /// Whether every field is zero.
    pub open spec fn is_zeroed(self) -> bool {
        &&& self.encoders_ptr == 0
        &&& self.modes_ptr == 0
        &&& self.props_ptr == 0
        &&& self.prop_values_ptr == 0
        &&& self.count_modes == 0
        &&& self.count_props == 0
        &&& self.count_encoders == 0
        &&& self.encoder_id == 0
        &&& self.connector_id == 0
        &&& self.connector_type == 0
        &&& self.connector_type_id == 0
        &&& self.connection == 0
        &&& self.mm_width == 0
        &&& self.mm_height == 0
        &&& self.subpixel == 0
        &&& self.pad == 0
    }
}

impl Default for DrmModeGetConnector {
    /// The record with every field zero.
    fn default() -> (r: Self)
        ensures
            r.is_zeroed(),
    {
        DrmModeGetConnector {
            encoders_ptr: 0,
            modes_ptr: 0,
            props_ptr: 0,
            prop_values_ptr: 0,
            count_modes: 0,
            count_props: 0,
            count_encoders: 0,
            encoder_id: 0,
            connector_id: 0,
            connector_type: 0,
            connector_type_id: 0,
            connection: 0,
            mm_width: 0,
            mm_height: 0,
            subpixel: 0,
            pad: 0,
        }
    }
}

/// An encoder and the CRTC it drives.
pub struct DrmModeGetEncoder {
    pub encoder_id: u32,
    pub encoder_type: u32,
    pub crtc_id: u32,
    pub possible_crtcs: u32,
    pub possible_clones: u32,
}

impl DrmModeGetEncoder {
    /// Whether every field is zero.
    pub open spec fn is_zeroed(self) -> bool {
        &&& self.encoder_id == 0
        &&& self.encoder_type == 0
        &&& self.crtc_id == 0
        &&& self.possible_crtcs == 0
        &&& self.possible_clones == 0
    }
}

impl Default for DrmModeGetEncoder {
    /// The record with every field zero.
    fn default() -> (r: Self)
        ensures
            r.is_zeroed(),
    {
        DrmModeGetEncoder {
            encoder_id: 0,
            encoder_type: 0,
            crtc_id: 0,
            possible_crtcs: 0,
            possible_clones: 0,
        }
    }
}

/// Request and reply of dumb buffer creation.
pub struct DrmModeCreateDumb {
    pub height: u32,
    pub width: u32,
    pub bpp: u32,
    pub flags: u32,
    pub handle: u32,
    pub pitch: u32,
    pub size: u64,
}

impl DrmModeCreateDumb {
    /// Whether every field is zero.
    pub open spec fn is_zeroed(self) -> bool {
        &&& self.height == 0
        &&& self.width == 0
        &&& self.bpp == 0
        &&& self.flags == 0
        &&& self.handle == 0
        &&& self.pitch == 0
        &&& self.size == 0
    }
}

impl Default for DrmModeCreateDumb {
    /// The record with every field zero.
    fn default() -> (r: Self)
        ensures
            r.is_zeroed(),
    {
        DrmModeCreateDumb {
            height: 0,
            width: 0,
            bpp: 0,
            flags: 0,
            handle: 0,
            pitch: 0,
            size: 0,
        }
    }
}

/// Request and reply of the mmap offset of a dumb buffer.
pub struct DrmModeMapDumb {
    pub handle: u32,
    pub pad: u32,
    pub offset: u64,
}

impl DrmModeMapDumb {
    /// Whether every field is zero.
    pub open spec fn is_zeroed(self) -> bool {
        &&& self.handle == 0
        &&& self.pad == 0
        &&& self.offset == 0
    }
}

impl Default for DrmModeMapDumb {
    /// The record with every field zero.
    fn default() -> (r: Self)
        ensures
            r.is_zeroed(),
    {
        DrmModeMapDumb {
            handle: 0,
            pad: 0,
            offset: 0,
        }
    }
}

/// Request and reply of registering a buffer as a framebuffer.
pub struct DrmModeFbCmd {
    pub fb_id: u32,
    pub width: u32,
    pub height: u32,
    pub pitch: u32,
    pub bpp: u32,
    pub depth: u32,
    pub handle: u32,
}

impl DrmModeFbCmd {
    /// Whether every field is zero.
    pub open spec fn is_zeroed(self) -> bool {
        &&& self.fb_id == 0
        &&& self.width == 0
        &&& self.height == 0
        &&& self.pitch == 0
        &&& self.bpp == 0
        &&& self.depth == 0
        &&& self.handle == 0
    }
}

impl Default for DrmModeFbCmd {
    /// The record with every field zero.
    fn default() -> (r: Self)
        ensures
            r.is_zeroed(),
    {
        DrmModeFbCmd {
            fb_id: 0,
            width: 0,
            height: 0,
            pitch: 0,
            bpp: 0,
            depth: 0,
            handle: 0,
        }
    }
}

/// Request of a page flip on a CRTC.
pub struct DrmModeCrtcPageFlip {
    pub crtc_id: u32,
    pub fb_id: u32,
    pub flags: u32,
    pub reserved: u32,
    pub user_data: u64,
}

impl DrmModeCrtcPageFlip {
    /// Whether every field is zero.
    pub open spec fn is_zeroed(self) -> bool {
        &&& self.crtc_id == 0
        &&& self.fb_id == 0
        &&& self.flags == 0
        &&& self.reserved == 0
        &&& self.user_data == 0
    }
}

impl Default for DrmModeCrtcPageFlip {
    /// The record with every field zero.
    fn default() -> (r: Self)
        ensures
            r.is_zeroed(),
    {
        DrmModeCrtcPageFlip {
            crtc_id: 0,
            fb_id: 0,
            flags: 0,
            reserved: 0,
            user_data: 0,
        }
    }
}

/// The event the kernel sends when a flip completes.
pub struct DrmEventVblank {
    pub kind: u32,
    pub length: u32,
    pub user_data: u64,
    pub tv_sec: u32,
    pub tv_usec: u32,
    pub sequence: u32,
    pub crtc_id: u32,
}

/// Request and reply of a CRTC's configuration.
pub struct DrmModeCrtc {
    pub set_connectors_ptr: u64,
    pub count_connectors: u32,
    pub crtc_id: u32,
    pub fb_id: u32,
    pub x: u32,
    pub y: u32,
    pub gamma_size: u32,
    pub mode_valid: u32,
    pub mode: DrmModeModeinfo,
}

impl DrmModeCrtc {
    /// Whether every field is zero.
    pub open spec fn is_zeroed(self) -> bool {
        &&& self.set_connectors_ptr == 0
        &&& self.count_connectors == 0
        &&& self.crtc_id == 0
        &&& self.fb_id == 0
        &&& self.x == 0
        &&& self.y == 0
        &&& self.gamma_size == 0
        &&& self.mode_valid == 0
        &&& self.mode.is_zeroed()
    }
}

impl Default for DrmModeCrtc {
    /// The record with every field zero.
    fn default() -> (r: Self)
        ensures
            r.is_zeroed(),
    {
        DrmModeCrtc {
            set_connectors_ptr: 0,
            count_connectors: 0,
            crtc_id: 0,
            fb_id: 0,
            x: 0,
            y: 0,
            gamma_size: 0,
            mode_valid: 0,
            mode: DrmModeModeinfo::default(),
        }
    }
}

} // verus!
