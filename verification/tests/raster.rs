use barium::raster::MAX_WIDTH;
use barium::{ConfigError, RasterSize};

#[test]
fn zero_sides_are_rejected() {
    assert_eq!(RasterSize::new(0, 5), Err(ConfigError::ZeroSize));
    assert_eq!(RasterSize::new(5, 0), Err(ConfigError::ZeroSize));
    assert_eq!(RasterSize::new(0, 0), Err(ConfigError::ZeroSize));
    // A zero side is reported before a width that is too large.
    assert_eq!(RasterSize::new(u32::MAX, 0), Err(ConfigError::ZeroSize));
}

#[test]
fn width_is_limited() {
    assert_eq!(MAX_WIDTH, (i32::MAX / 4) as u32);
    assert_eq!(RasterSize::new(MAX_WIDTH + 1, 1), Err(ConfigError::TooLarge));
    assert_eq!(RasterSize::new(u32::MAX, 1), Err(ConfigError::TooLarge));
    let widest = RasterSize::new(MAX_WIDTH, 1).unwrap();
    assert_eq!(widest.width(), MAX_WIDTH);
    assert_eq!(widest.height(), 1);
    assert_eq!(widest.byte_len(), 4 * MAX_WIDTH as usize);
}

#[test]
fn a_buffer_has_four_bytes_for_each_pixel() {
    let size = RasterSize::new(1000, 1000).unwrap();
    assert_eq!(size.width(), 1000);
    assert_eq!(size.height(), 1000);
    assert_eq!(size.byte_len(), 4_000_000);
    let size = RasterSize::new(3, 7).unwrap();
    assert_eq!(size.byte_len(), 84);
    let tall = RasterSize::new(1, u32::MAX).unwrap();
    assert_eq!(tall.byte_len() as u64, 4 * u32::MAX as u64);
}
