use rboy_lego::framebuffer::{pack_rgb565, Framebuffer, FramebufferConfig, FramebufferError};
use rboy_lego::{SCREEN_H, SCREEN_W};

fn config(width: usize, height: usize, stride: usize) -> FramebufferConfig {
    FramebufferConfig {
        path: String::from("/dev/fb1"),
        width,
        height,
        bytes_per_pixel: 2,
        stride_pixels: stride,
    }
}

fn uniform_frame(r: u8, g: u8, b: u8) -> Vec<u8> {
    let mut buf = Vec::with_capacity(SCREEN_W * SCREEN_H * 3);
    for _ in 0..SCREEN_W * SCREEN_H {
        buf.push(r);
        buf.push(g);
        buf.push(b);
    }
    buf
}

#[test]
fn test_new_rejects_bad_geometry() {
    assert_eq!(
        Framebuffer::new(config(0, 240, 320)).err(),
        Some(FramebufferError::InvalidGeometry)
    );
    assert_eq!(
        Framebuffer::new(config(320, 0, 320)).err(),
        Some(FramebufferError::InvalidGeometry)
    );
    // Stride narrower than the width.
    assert_eq!(
        Framebuffer::new(config(320, 240, 300)).err(),
        Some(FramebufferError::InvalidGeometry)
    );
    let mut c = config(320, 240, 320);
    c.bytes_per_pixel = 4;
    assert_eq!(
        Framebuffer::new(c).err(),
        Some(FramebufferError::InvalidGeometry)
    );
    assert!(Framebuffer::new(config(320, 240, 320)).is_ok());
}

#[test]
fn test_pack_rgb565_white_and_channels() {
    assert_eq!(pack_rgb565(255, 255, 255), 0xFFFF);
    assert_eq!(pack_rgb565(0, 0, 0), 0x0000);
    assert_eq!(pack_rgb565(255, 0, 0), 0xF800);
    assert_eq!(pack_rgb565(0, 255, 0), 0x07E0);
    assert_eq!(pack_rgb565(0, 0, 255), 0x001F);
    // Channel truncation: low bits are dropped, no rounding.
    assert_eq!(pack_rgb565(10, 200, 30), (1 << 11) | (50 << 5) | 3);
}

#[test]
fn test_uniform_frame_fills_centered_region_only() {
    // Destination 200x144: the scale factor is exactly 1, so the source's
    // 160 columns are centered with a 20-pixel offset on each side.
    let mut fb = Framebuffer::new(config(200, 144, 210)).unwrap();
    fb.fill(255, 255, 255);
    let buf = uniform_frame(10, 200, 30);
    fb.write(&buf);
    let expected = pack_rgb565(10, 200, 30);
    for y in 0..144 {
        for x in 0..210 {
            let v = fb.pixels[y * 210 + x];
            if (20..180).contains(&x) {
                assert_eq!(v, expected, "pixel ({x},{y})");
            } else {
                assert_eq!(v, 0xFFFF, "pixel ({x},{y}) should be untouched");
            }
        }
    }
}

#[test]
fn test_fit_height_scaling_on_tall_display() {
    // Destination surface 240x320 (portrait): scale = 320/144, scaled
    // width about 356, wider than the display, so the image is
    // center-cropped and every visible pixel is written. An all-white
    // source leaves 0xFFFF at every in-bounds destination pixel.
    let mut fb = Framebuffer::new(config(240, 320, 256)).unwrap();
    let buf = uniform_frame(255, 255, 255);
    fb.write(&buf);
    for y in 0..320 {
        for x in 0..256 {
            let v = fb.pixels[y * 256 + x];
            if x < 240 {
                assert_eq!(v, 0xFFFF, "pixel ({x},{y})");
            } else {
                // Padding columns between width and stride stay black.
                assert_eq!(v, 0x0000, "pixel ({x},{y}) beyond visible width");
            }
        }
    }
}

#[test]
fn test_write_tolerates_short_source() {
    let mut fb = Framebuffer::new(config(200, 144, 200)).unwrap();
    fb.fill(1, 2, 3);
    let before = fb.pixels.clone();
    // An empty source frame: nothing can be sampled, nothing changes.
    fb.write(&[]);
    assert_eq!(fb.pixels, before);
    // A source holding one full row: only destination row 0 changes.
    let row: Vec<u8> = vec![255; SCREEN_W * 3];
    fb.write(&row);
    for y in 1..144 {
        for x in 0..200 {
            assert_eq!(fb.pixels[y * 200 + x], before[y * 200 + x]);
        }
    }
    assert_eq!(fb.pixels[20], 0xFFFF);
}

#[test]
fn test_zero_blanks_everything() {
    let mut fb = Framebuffer::new(config(64, 64, 70)).unwrap();
    fb.fill(255, 255, 255);
    fb.zero();
    assert!(fb.pixels.iter().all(|p| *p == 0));
}

#[test]
fn test_put_pixel_writes_and_clips() {
    let mut fb = Framebuffer::new(config(64, 32, 70)).unwrap();
    fb.put_pixel(2, 3, 0x1234);
    assert_eq!(fb.pixels[3 * 70 + 2], 0x1234);
    // Out-of-range coordinates are silently clipped.
    let before = fb.pixels.clone();
    fb.put_pixel(64, 0, 0xFFFF);
    fb.put_pixel(0, 32, 0xFFFF);
    fb.put_pixel(usize::MAX, usize::MAX, 0xFFFF);
    assert_eq!(fb.pixels, before);
}

#[test]
fn test_height_and_width_accessors() {
    let fb = Framebuffer::new(config(240, 320, 256)).unwrap();
    assert_eq!(fb.height(), 320);
    assert_eq!(fb.width(), 240);
}

#[test]
fn test_nearest_neighbor_samples_expected_pixels() {
    // Destination 320x288: exactly double the source height, so the
    // scaled width is 320 with no offset, and destination (2x, 2y)
    // samples source (x, y).
    let mut fb = Framebuffer::new(config(320, 288, 320)).unwrap();
    let mut buf = vec![0u8; SCREEN_W * SCREEN_H * 3];
    let paint = |buf: &mut Vec<u8>, x: usize, y: usize, rgb: [u8; 3]| {
        let i = (y * SCREEN_W + x) * 3;
        buf[i] = rgb[0];
        buf[i + 1] = rgb[1];
        buf[i + 2] = rgb[2];
    };
    paint(&mut buf, 0, 0, [255, 0, 0]);
    paint(&mut buf, 100, 70, [0, 255, 0]);
    paint(&mut buf, 159, 143, [0, 0, 255]);
    fb.write(&buf);
    assert_eq!(fb.pixels[0], pack_rgb565(255, 0, 0));
    assert_eq!(fb.pixels[1], pack_rgb565(255, 0, 0));
    assert_eq!(fb.pixels[320 + 1], pack_rgb565(255, 0, 0));
    assert_eq!(fb.pixels[140 * 320 + 200], pack_rgb565(0, 255, 0));
    assert_eq!(fb.pixels[141 * 320 + 201], pack_rgb565(0, 255, 0));
    assert_eq!(fb.pixels[286 * 320 + 318], pack_rgb565(0, 0, 255));
    assert_eq!(fb.pixels[287 * 320 + 319], pack_rgb565(0, 0, 255));
    // A neighbor outside those source pixels is black.
    assert_eq!(fb.pixels[2 * 320 + 2], 0);
}
