//! Framebuffer compositor. The surface models a memory-mapped display
//! region as an owned, bounds-checked buffer of 16-bit pixels: `stride`
//! pixels per row, `height` rows, of which the leftmost `width` columns are
//! visible. Writing a source frame converts 24-bit RGB to packed 5-6-5 and
//! scales it so the source height exactly fills the destination height,
//! centering (or center-cropping) horizontally; nearest-neighbor sampling,
//! no blending. The binary maps the device memory and copies this buffer
//! into it.

use vstd::prelude::*;

use crate::{SCREEN_H, SCREEN_W};

verus! {

/// Physical attributes of the display surface.
pub struct FramebufferConfig {
    /// Path of the framebuffer device; carried for the binary, which does
    /// the mapping.
    pub path: String,
    pub width: usize,
    pub height: usize,
    pub bytes_per_pixel: usize,
    pub stride_pixels: usize,
}

/// Why a surface could not be set up.
#[derive(Debug, Clone, Copy, PartialEq, Eq, Structural)]
pub enum FramebufferError {
    /// A dimension is zero, too large, the stride is narrower than the
    /// visible width, or the pixel depth is not the two bytes this surface
    /// writes.
    InvalidGeometry,
}

/// An owned display surface of `stride * height` packed 5-6-5 pixels.
pub struct Framebuffer {
    pub width: usize,
    pub height: usize,
    /// Pixels between the starts of consecutive rows; at least `width`.
    pub stride: usize,
    pub pixels: Vec<u16>,
}

/// The largest accepted value for a surface dimension or stride, so that
/// every pixel index fits comfortably in the machine's word.
pub const MAX_DIM: usize = 65535;

/// 24-bit RGB packed to 16-bit 5-6-5: five bits of red, six of green, five
/// of blue, by plain channel truncation.
pub open spec fn rgb565(r: u8, g: u8, b: u8) -> u16 {
    (((r >> 3) as u16) << 11) | (((g >> 2) as u16) << 5) | ((b >> 3) as u16)
}

/// Executable form of [`rgb565`].
pub fn pack_rgb565(r: u8, g: u8, b: u8) -> (v: u16)
    ensures
        v == rgb565(r, g, b),
{
    (((r >> 3) as u16) << 11) | (((g >> 2) as u16) << 5) | ((b >> 3) as u16)
}

/// The pixel of a row-major grid at column `x` of row `y`.
pub open spec fn pixel_at(pixels: Seq<u16>, stride: int, x: int, y: int) -> u16 {
    pixels[y * stride + x]
}

/// A whole grid index is below the grid's size.
pub proof fn lemma_grid_index_bounds(x: int, y: int, stride: int, height: int)
    by (nonlinear_arith)
    requires
        0 <= x < stride,
        0 <= y < height,
    ensures
        0 <= y * stride + x < stride * height,
{
}

/// Row-major indexing is injective on in-row columns.
pub proof fn lemma_grid_index_inj(x1: int, y1: int, x2: int, y2: int, stride: int)
    by (nonlinear_arith)
    requires
        0 <= x1 < stride,
        0 <= x2 < stride,
        0 <= y1,
        0 <= y2,
        y1 * stride + x1 == y2 * stride + x2,
    ensures
        x1 == x2 && y1 == y2,
{
}

/// Scaling a coordinate below `height` down to the source grid lands below
/// the source extent.
proof fn lemma_sample_bound(y: int, height: int, src: int)
    by (nonlinear_arith)
    requires
        0 <= y < height,
        0 < src,
    ensures
        0 <= y * src / height < src,
{
}

impl Framebuffer {
    /// A well-formed surface: positive visible extent, stride at least the
    /// width, everything bounded, and exactly one pixel slot per grid cell.
    pub open spec fn wf(self) -> bool {
        &&& 0 < self.width <= MAX_DIM
        &&& 0 < self.height <= MAX_DIM
        &&& self.width <= self.stride <= MAX_DIM
        &&& self.pixels@.len() == self.stride * self.height
    }

    /// Whether a configuration describes a surface this compositor can
    /// drive.
    pub open spec fn config_valid(config: FramebufferConfig) -> bool {
        &&& 0 < config.width <= MAX_DIM
        &&& 0 < config.height <= MAX_DIM
        &&& config.width <= config.stride_pixels <= MAX_DIM
        &&& config.bytes_per_pixel == 2
    }

    /// Create a surface for the given geometry, every pixel black. Rejects
    /// geometry whose writes could not all be kept in bounds.
    pub fn new(config: FramebufferConfig) -> (r: Result<Framebuffer, FramebufferError>)
        ensures
            r is Ok <==> Self::config_valid(config),
            r matches Ok(fb) ==> {
                &&& fb.wf()
                &&& fb.width == config.width
                &&& fb.height == config.height
                &&& fb.stride == config.stride_pixels
                &&& forall|i: int| 0 <= i < fb.pixels@.len() ==> fb.pixels@[i] == 0
            },
            r is Err ==> r == Result::<Framebuffer, FramebufferError>::Err(
                FramebufferError::InvalidGeometry,
            ),
    {
        if !(0 < config.width && config.width <= MAX_DIM && 0 < config.height && config.height
            <= MAX_DIM && config.width <= config.stride_pixels && config.stride_pixels <= MAX_DIM
            && config.bytes_per_pixel == 2) {
            return Err(FramebufferError::InvalidGeometry);
        }
        proof {
            lemma_grid_index_bounds(
                config.stride_pixels - 1,
                config.height - 1,
                config.stride_pixels as int,
                config.height as int,
            );
            assert(config.stride_pixels * config.height <= MAX_DIM * MAX_DIM)
                by (nonlinear_arith)
                requires
                    0 < config.stride_pixels <= MAX_DIM,
                    0 < config.height <= MAX_DIM,
            ;
        }
        let n: usize = config.stride_pixels * config.height;
        let mut pixels: Vec<u16> = Vec::new();
        while pixels.len() < n
            invariant
                pixels@.len() <= n,
                forall|i: int| 0 <= i < pixels@.len() ==> pixels@[i] == 0,
            decreases n - pixels@.len(),
        {
            pixels.push(0u16);
        }
        Ok(Framebuffer {
            width: config.width,
            height: config.height,
            stride: config.stride_pixels,
            pixels,
        })
    }

    /// Height of the surface in pixels.
    pub fn height(&self) -> (r: usize)
        ensures
            r == self.height,
    {
        self.height
    }

    /// Visible width of the surface in pixels.
    pub fn width(&self) -> (r: usize)
        ensures
            r == self.width,
    {
        self.width
    }

    /// Width of the scaled source image: the source scaled uniformly so its
    /// height exactly fills the destination height, rounded to the nearest
    /// pixel.
    pub open spec fn scaled_w(self) -> int {
        (SCREEN_W * self.height + SCREEN_H / 2) / (SCREEN_H as int)
    }

    /// Leftmost destination column of the scaled image: the image is
    /// centered when it fits, and starts at the left edge when it is wider
    /// than the surface.
    pub open spec fn x_offset(self) -> int {
        if self.scaled_w() <= self.width {
            (self.width - self.scaled_w()) / 2
        } else {
            0
        }
    }

    /// How many columns of the scaled image are cropped off its left edge
    /// when it is wider than the surface (center crop).
    pub open spec fn crop(self) -> int {
        if self.scaled_w() <= self.width {
            0
        } else {
            (self.scaled_w() - self.width) / 2
        }
    }

    /// How many destination columns the scaled image covers.
    pub open spec fn vis_w(self) -> int {
        if self.scaled_w() <= self.width {
            self.scaled_w()
        } else {
            self.width as int
        }
    }

    /// The source row sampled for destination row `y` (nearest neighbor).
    pub open spec fn sample_y(self, y: int) -> int {
        y * SCREEN_H / (self.height as int)
    }

    /// The source column sampled for destination column `x` (nearest
    /// neighbor, accounting for centering and cropping).
    pub open spec fn sample_x(self, x: int) -> int {
        (x - self.x_offset() + self.crop()) * SCREEN_H / (self.height as int)
    }

    /// The first source byte of the RGB triple for source pixel
    /// `(sx, sy)`.
    pub open spec fn source_index(sx: int, sy: int) -> int {
        (sy * SCREEN_W + sx) * 3
    }

    /// Whether a frame write touches destination pixel `(x, y)`: the
    /// column lies under the scaled image, the sampled source pixel exists,
    /// and the source buffer actually holds its bytes (short buffers are
    /// clipped, never overread).
    pub open spec fn touched(self, buf: Seq<u8>, x: int, y: int) -> bool {
        &&& self.x_offset() <= x < self.x_offset() + self.vis_w()
        &&& 0 <= self.sample_y(y) < SCREEN_H
        &&& 0 <= self.sample_x(x) < SCREEN_W
        &&& Self::source_index(self.sample_x(x), self.sample_y(y)) + 2 < buf.len()
    }

    /// The packed color a frame write stores at a touched destination
    /// pixel.
    pub open spec fn written_color(self, buf: Seq<u8>, x: int, y: int) -> u16 {
        let si = Self::source_index(self.sample_x(x), self.sample_y(y));
        rgb565(buf[si], buf[si + 1], buf[si + 2])
    }

    /// Full account of one frame write: geometry unchanged, every touched
    /// pixel holds the converted sample, every other pixel holds its prior
    /// value.
    pub open spec fn write_post(o: Framebuffer, n: Framebuffer, buf: Seq<u8>) -> bool {
        &&& n.width == o.width
        &&& n.height == o.height
        &&& n.stride == o.stride
        &&& n.pixels@.len() == o.pixels@.len()
        &&& forall|x: int, y: int|
            0 <= x < o.stride && 0 <= y < o.height ==> #[trigger] pixel_at(
                n.pixels@,
                o.stride as int,
                x,
                y,
            ) == (if o.touched(buf, x, y) {
                o.written_color(buf, x, y)
            } else {
                pixel_at(o.pixels@, o.stride as int, x, y)
            })
    }

    /// Write a source frame onto the surface: convert each sampled RGB
    /// triple to packed 5-6-5 and store it, scaling the source to fill the
    /// destination height and centering (or center-cropping) horizontally.
    /// Destination pixels outside the scaled region, or whose sample falls
    /// outside the source frame or past the end of `buf`, keep their prior
    /// value; nothing is ever read or written out of bounds.
    pub fn write(&mut self, buf: &[u8])
        requires
            old(self).wf(),
        ensures
            final(self).wf(),
            Self::write_post(*old(self), *final(self), buf@),
    {
        let ghost o = *old(self);
        let scaled_w: usize = (SCREEN_W * self.height + SCREEN_H / 2) / SCREEN_H;
        let x_off: usize = if scaled_w <= self.width {
            (self.width - scaled_w) / 2
        } else {
            0
        };
        let crop: usize = if scaled_w <= self.width {
            0
        } else {
            (scaled_w - self.width) / 2
        };
        let vis_w: usize = if scaled_w <= self.width {
            scaled_w
        } else {
            self.width
        };
        assert(scaled_w == o.scaled_w());
        assert(x_off == o.x_offset());
        assert(crop == o.crop());
        assert(vis_w == o.vis_w());
        assert(x_off + vis_w <= o.width);
        let mut dy: usize = 0;
        while dy < self.height
            invariant
                self.width == o.width,
                self.height == o.height,
                self.stride == o.stride,
                self.pixels@.len() == o.pixels@.len(),
                o.wf(),
                dy <= o.height,
                scaled_w == o.scaled_w(),
                x_off == o.x_offset(),
                crop == o.crop(),
                vis_w == o.vis_w(),
                x_off + vis_w <= o.width,
                forall|x: int, y: int|
                    0 <= x < o.stride && 0 <= y < o.height ==> #[trigger] pixel_at(
                        self.pixels@,
                        o.stride as int,
                        x,
                        y,
                    ) == (if y < dy && o.touched(buf@, x, y) {
                        o.written_color(buf@, x, y)
                    } else {
                        pixel_at(o.pixels@, o.stride as int, x, y)
                    }),
            decreases o.height - dy,
        {
            let sy: usize = dy * SCREEN_H / self.height;
            proof {
                lemma_sample_bound(dy as int, o.height as int, SCREEN_H as int);
            }
            assert(sy == o.sample_y(dy as int));
            let mut dx: usize = 0;
            while dx < vis_w
                invariant
                    self.width == o.width,
                    self.height == o.height,
                    self.stride == o.stride,
                    self.pixels@.len() == o.pixels@.len(),
                    o.wf(),
                    dy < o.height,
                    dx <= vis_w,
                    scaled_w == o.scaled_w(),
                    x_off == o.x_offset(),
                    crop == o.crop(),
                    vis_w == o.vis_w(),
                    x_off + vis_w <= o.width,
                    sy == o.sample_y(dy as int),
                    0 <= sy < SCREEN_H,
                    forall|x: int, y: int|
                        0 <= x < o.stride && 0 <= y < o.height ==> #[trigger] pixel_at(
                            self.pixels@,
                            o.stride as int,
                            x,
                            y,
                        ) == (if (y < dy || (y == dy && x < x_off + dx)) && o.touched(
                            buf@,
                            x,
                            y,
                        ) {
                            o.written_color(buf@, x, y)
                        } else {
                            pixel_at(o.pixels@, o.stride as int, x, y)
                        }),
                decreases vis_w - dx,
            {
                let sx: usize = (dx + crop) * SCREEN_H / self.height;
                assert(sx == o.sample_x(x_off + dx));
                if sx < SCREEN_W {
                    let si: usize = (sy * SCREEN_W + sx) * 3;
                    assert(si == Self::source_index(sx as int, sy as int));
                    if si + 2 < buf.len() {
                        let r = buf[si];
                        let g = buf[si + 1];
                        let b = buf[si + 2];
                        let v = pack_rgb565(r, g, b);
                        proof {
                            lemma_grid_index_bounds(
                                (x_off + dx) as int,
                                dy as int,
                                o.stride as int,
                                o.height as int,
                            );
                            assert(o.stride * o.height <= MAX_DIM * MAX_DIM)
                                by (nonlinear_arith)
                                requires
                                    0 <= o.stride <= MAX_DIM,
                                    0 <= o.height <= MAX_DIM,
                            ;
                        }
                        let idx: usize = dy * self.stride + (x_off + dx);
                        let ghost before = self.pixels@;
                        self.pixels.set(idx, v);
                        proof {
                            assert(o.touched(buf@, (x_off + dx) as int, dy as int));
                            assert(v == o.written_color(buf@, (x_off + dx) as int, dy as int));
                            assert forall|x: int, y: int|
                                0 <= x < o.stride && 0 <= y < o.height implies #[trigger]
                            pixel_at(self.pixels@, o.stride as int, x, y) == (if (y < dy || (y
                                == dy && x < x_off + dx + 1)) && o.touched(buf@, x, y) {
                                o.written_color(buf@, x, y)
                            } else {
                                pixel_at(o.pixels@, o.stride as int, x, y)
                            }) by {
                                lemma_grid_index_bounds(x, y, o.stride as int, o.height as int);
                                if y * o.stride + x == idx {
                                    lemma_grid_index_inj(
                                        x,
                                        y,
                                        (x_off + dx) as int,
                                        dy as int,
                                        o.stride as int,
                                    );
                                } else {
                                    assert(pixel_at(self.pixels@, o.stride as int, x, y)
                                        == pixel_at(before, o.stride as int, x, y));
                                }
                            }
                        }
                    } else {
                        proof {
                            assert(!o.touched(buf@, (x_off + dx) as int, dy as int));
                        }
                    }
                } else {
                    proof {
                        assert(!o.touched(buf@, (x_off + dx) as int, dy as int));
                    }
                }
                dx = dx + 1;
            }
            proof {
                assert forall|x: int, y: int|
                    0 <= x < o.stride && 0 <= y < o.height implies #[trigger] pixel_at(
                    self.pixels@,
                    o.stride as int,
                    x,
                    y,
                ) == (if y < dy + 1 && o.touched(buf@, x, y) {
                    o.written_color(buf@, x, y)
                } else {
                    pixel_at(o.pixels@, o.stride as int, x, y)
                }) by {
                    if y == dy && o.touched(buf@, x, y) {
                        assert(x_off <= x < x_off + vis_w);
                    }
                }
            }
            dy = dy + 1;
        }
    }

    /// Zero-fill the whole mapped region: a black screen.
    pub fn zero(&mut self)
        requires
            old(self).wf(),
        ensures
            final(self).wf(),
            final(self).width == old(self).width,
            final(self).height == old(self).height,
            final(self).stride == old(self).stride,
            final(self).pixels@.len() == old(self).pixels@.len(),
            forall|i: int| 0 <= i < final(self).pixels@.len() ==> final(self).pixels@[i] == 0,
    {
        let mut i: usize = 0;
        let n = self.pixels.len();
        while i < n
            invariant
                n == self.pixels@.len(),
                self.width == old(self).width,
                self.height == old(self).height,
                self.stride == old(self).stride,
                i <= n,
                forall|j: int| 0 <= j < i ==> self.pixels@[j] == 0,
            decreases n - i,
        {
            self.pixels.set(i, 0u16);
            i = i + 1;
        }
    }

    /// Fill the whole mapped region with one color, given as 24-bit RGB
    /// and stored packed.
    pub fn fill(&mut self, r: u8, g: u8, b: u8)
        requires
            old(self).wf(),
        ensures
            final(self).wf(),
            final(self).width == old(self).width,
            final(self).height == old(self).height,
            final(self).stride == old(self).stride,
            final(self).pixels@.len() == old(self).pixels@.len(),
            forall|i: int|
                0 <= i < final(self).pixels@.len() ==> final(self).pixels@[i] == rgb565(
                    r,
                    g,
                    b,
                ),
    {
        let v = pack_rgb565(r, g, b);
        let mut i: usize = 0;
        let n = self.pixels.len();
        while i < n
            invariant
                n == self.pixels@.len(),
                self.width == old(self).width,
                self.height == old(self).height,
                self.stride == old(self).stride,
                i <= n,
                v == rgb565(r, g, b),
                forall|j: int| 0 <= j < i ==> self.pixels@[j] == rgb565(r, g, b),
            decreases n - i,
        {
            self.pixels.set(i, v);
            i = i + 1;
        }
    }

    /// Write one pixel, already packed, at `(x, y)`. Coordinates outside
    /// the visible surface are silently clipped, never written.
    pub fn put_pixel(&mut self, x: usize, y: usize, color: u16)
        requires
            old(self).wf(),
        ensures
            final(self).wf(),
            final(self).width == old(self).width,
            final(self).height == old(self).height,
            final(self).stride == old(self).stride,
            x < old(self).width && y < old(self).height ==> final(self).pixels@ == old(
                self,
            ).pixels@.update(y * old(self).stride + x, color),
            !(x < old(self).width && y < old(self).height) ==> final(self).pixels@ == old(
                self,
            ).pixels@,
    {
        if x >= self.width || y >= self.height {
            return ;
        }
        proof {
            lemma_grid_index_bounds(x as int, y as int, self.stride as int, self.height as int);
            assert(self.stride * self.height <= MAX_DIM * MAX_DIM)
                by (nonlinear_arith)
                requires
                    0 <= self.stride <= MAX_DIM,
                    0 <= self.height <= MAX_DIM,
            ;
        }
        let idx: usize = y * self.stride + x;
        self.pixels.set(idx, color);
    }
}

/// A full-size source frame holding one color at every pixel: byte `i` is
/// the red, green or blue channel as `i` falls on a multiple of three, one
/// past, or two past.
pub open spec fn frame_uniform(buf: Seq<u8>, r: u8, g: u8, b: u8) -> bool {
    &&& buf.len() == SCREEN_W * SCREEN_H * 3
    &&& forall|i: int|
        0 <= i < buf.len() ==> #[trigger] buf[i] == (if i % 3 == 0 {
            r
        } else if i % 3 == 1 {
            g
        } else {
            b
        })
}

/// The bytes of one RGB triple sit at offsets 0, 1 and 2 modulo 3.
proof fn lemma_triple_mod(k: int)
    by (nonlinear_arith)
    requires
        k >= 0,
    ensures
        (k * 3) % 3 == 0,
        (k * 3 + 1) % 3 == 1,
        (k * 3 + 2) % 3 == 2,
{
}

/// The scaling round-trip law: writing a source frame filled with one
/// color `(r, g, b)` leaves every destination pixel under the scaled image
/// holding exactly the packed 5-6-5 form of that color, and every
/// destination pixel outside it at its prior value.
pub proof fn lemma_uniform_frame(
    o: Framebuffer,
    n: Framebuffer,
    buf: Seq<u8>,
    r: u8,
    g: u8,
    b: u8,
)
    requires
        o.wf(),
        Framebuffer::write_post(o, n, buf),
        frame_uniform(buf, r, g, b),
    ensures
        forall|x: int, y: int|
            0 <= x < o.stride && 0 <= y < o.height ==> #[trigger] pixel_at(
                n.pixels@,
                o.stride as int,
                x,
                y,
            ) == (if o.touched(buf, x, y) {
                rgb565(r, g, b)
            } else {
                pixel_at(o.pixels@, o.stride as int, x, y)
            }),
{
    assert forall|x: int, y: int| 0 <= x < o.stride && 0 <= y < o.height implies #[trigger]
    pixel_at(n.pixels@, o.stride as int, x, y) == (if o.touched(buf, x, y) {
        rgb565(r, g, b)
    } else {
        pixel_at(o.pixels@, o.stride as int, x, y)
    }) by {
        if o.touched(buf, x, y) {
            let sx = o.sample_x(x);
            let sy = o.sample_y(y);
            let k = sy * SCREEN_W + sx;
            assert(k >= 0) by (nonlinear_arith)
                requires
                    sx >= 0,
                    sy >= 0,
                    k == sy * SCREEN_W + sx,
            ;
            lemma_triple_mod(k);
            assert(buf[k * 3] == r);
            assert(buf[k * 3 + 1] == g);
            assert(buf[k * 3 + 2] == b);
        }
    }
}

} // verus!
