# lib

A software rasterizer that draws filled rectangles, circles and triangles
into a row-major `u32` pixel buffer, together with the plain-data side of a
double-buffered DRM/KMS display loop.

- `src/` is the verified library (Verus):
  - `paint`: which buffer positions a shape covers, and the scan-loop facts
    shared by all shapes;
  - `rasterizer`: `Color`, `Rectangle`, `Circle`, `Triangle`, `Rasterizer`,
    each drawing operation specified exactly (which pixels change, to what,
    and when a draw is refused), with the laws about them;
  - `drm::sys`: ioctl request numbers and the kernel records;
  - `drm::framebuffer`: the requests that set up a dumb scanout buffer and
    the geometry of the result;
  - `display`: connector choice, scanout and page-flip requests, and the
    front/back buffer state of the display loop.
- `app/` is the program: the `#[repr(C)]` copies of the kernel records, the
  raw `ioctl` and `mmap` calls, memory mapping, and the display loop itself.
- `tests/` exercises the library on concrete buffers.
