//! The size of a raster target, checked when a raster backend is configured.
//!
//! A pixel buffer holds four bytes for each pixel, row after row. Its width
//! is limited so that the bytes of one row can be counted in 31 bits, and its
//! byte length is limited to what one allocation can hold.

use vstd::prelude::*;

verus! {

/// The greatest width of a pixel buffer: a row of it has at most `i32::MAX`
/// bytes.
pub const MAX_WIDTH: u32 = 536_870_911;

/// Why a raster target cannot be configured.
#[derive(Clone, Copy, Debug, PartialEq, Eq, Structural)]
pub enum ConfigError {
    /// The width or the height is zero.
    ZeroSize,
    /// The width is over `MAX_WIDTH`, or the buffer would hold more than
    /// `isize::MAX` bytes.
    TooLarge,
}

/// The width and height of a pixel buffer that can be allocated.
#[derive(Clone, Copy, Debug, PartialEq, Eq, Structural)]
pub struct RasterSize {
    width: u32,
    height: u32,
}

/// Whether a pixel buffer of this width and height can be described at all.
pub open spec fn fits(width: u32, height: u32) -> bool {
    width <= MAX_WIDTH && 4 * width * height <= isize::MAX
}

impl RasterSize {
    /// Neither side is zero, and the buffer fits.
    #[verifier::type_invariant]
    spec fn valid(self) -> bool {
        self.width > 0 && self.height > 0 && fits(self.width, self.height)
    }

    /// The number of pixels in a row.
    pub closed spec fn spec_width(&self) -> u32 {
        self.width
    }

    /// The number of rows.
    pub closed spec fn spec_height(&self) -> u32 {
        self.height
    }

    /// Checks a width and a height. A zero side is reported before a size
    /// that is too large.
    pub fn new(width: u32, height: u32) -> (r: Result<RasterSize, ConfigError>)
        ensures
            (width == 0 || height == 0) <==> r == Err::<RasterSize, ConfigError>(
                ConfigError::ZeroSize,
            ),
            (width > 0 && height > 0 && !fits(width, height)) <==> r == Err::<
                RasterSize,
                ConfigError,
            >(ConfigError::TooLarge),
            r is Ok ==> r.unwrap().spec_width() == width && r.unwrap().spec_height() == height,
    {
        if width == 0 || height == 0 {
            return Err(ConfigError::ZeroSize);
        }
        if width > MAX_WIDTH {
            return Err(ConfigError::TooLarge);
        }
        let row: u64 = 4 * (width as u64);
        assert(row * height <= 0x7fff_ffff * 0xffff_ffff) by (nonlinear_arith)
            requires
                row <= 0x7fff_ffff,
                height <= 0xffff_ffff,
        ;
        let bytes: u64 = row * (height as u64);
        assert(bytes == 4 * width * height) by (nonlinear_arith)
            requires
                bytes == row * height,
                row == 4 * width,
        ;
        if bytes > isize::MAX as u64 {
            return Err(ConfigError::TooLarge);
        }
        Ok(RasterSize { width, height })
    }

    /// The number of pixels in a row: at least one, and within the limit.
    pub fn width(&self) -> (w: u32)
        ensures
            w == self.spec_width(),
            0 < w <= MAX_WIDTH,
    {
        proof {
            use_type_invariant(self);
        }
        self.width
    }

    /// The number of rows: at least one.
    pub fn height(&self) -> (h: u32)
        ensures
            h == self.spec_height(),
            0 < h,
    {
        proof {
            use_type_invariant(self);
        }
        self.height
    }

    /// The number of bytes in the buffer: four for each pixel, and no more
    /// than one allocation can hold.
    pub fn byte_len(&self) -> (n: usize)
        ensures
            n == 4 * self.spec_width() * self.spec_height(),
            n <= isize::MAX,
    {
        proof {
            use_type_invariant(self);
        }
        let row: u64 = 4 * (self.width as u64);
        assert(row * self.height == 4 * self.width * self.height) by (nonlinear_arith)
            requires
                row == 4 * self.width,
        ;
        (row * (self.height as u64)) as usize
    }
}

} // verus!
