//! Command-line options of the appliance binary, with their defaults. The
//! binary's argument parser fills this in; the defaults live here so they
//! are stated once.

pub mod log_level;

use vstd::prelude::*;
use vstd::string::StringExecFns;

pub use self::log_level::LogLevel;

verus! {

/// Command-line options: framebuffer geometry, configuration paths,
/// verbosity and the optional ROM to boot straight into.
pub struct Args {
    /// Bytes per pixel for the framebuffer.
    pub bytes_per_pixel: usize,
    /// Path of the pinout configuration file.
    pub config: String,
    /// Path of the framebuffer device.
    pub framebuffer_path: String,
    /// Framebuffer height in pixels.
    pub height: usize,
    /// Logging verbosity.
    pub log_level: LogLevel,
    /// Integer scale factor for the framebuffer output.
    pub scale: usize,
    /// Framebuffer stride in pixels.
    pub stride_pixels: usize,
    /// Framebuffer width in pixels.
    pub width: usize,
    /// ROM file to boot, if given; otherwise the menu runs.
    pub rom_path: Option<String>,
}

impl Default for Args {
    /// The stock options: a 320x240 two-byte-per-pixel framebuffer on
    /// `/dev/fb1` with a 320-pixel stride, doubled scale, configuration
    /// under `/etc/rboy-lego/config.toml`, informational logging and no
    /// preselected ROM.
    fn default() -> (r: Args)
        ensures
            r.bytes_per_pixel == 2,
            r.config@ == "/etc/rboy-lego/config.toml"@,
            r.framebuffer_path@ == "/dev/fb1"@,
            r.height == 240,
            r.log_level == LogLevel::Info,
            r.scale == 2,
            r.stride_pixels == 320,
            r.width == 320,
            r.rom_path is None,
    {
        Args {
            bytes_per_pixel: 2,
            config: String::from_str("/etc/rboy-lego/config.toml"),
            framebuffer_path: String::from_str("/dev/fb1"),
            height: 240,
            log_level: LogLevel::Info,
            scale: 2,
            stride_pixels: 320,
            width: 320,
            rom_path: None,
        }
    }
}

} // verus!
