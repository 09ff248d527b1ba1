use barium::pixmap::{blank_buffer, blank_frame, into_buffer};
use barium::{RasterSize, Rgba8};

#[test]
fn blank_buffer_without_background_is_transparent() {
    let size = RasterSize::new(7, 5).unwrap();
    let buffer = blank_buffer(&size, None);
    assert_eq!(buffer.width(), 7);
    assert_eq!(buffer.height(), 5);
    assert_eq!(buffer.as_raw().len(), 7 * 5 * 4);
    for y in 0..5 {
        for x in 0..7 {
            assert_eq!(buffer.pixel(x, y), Some(Rgba8::new(0, 0, 0, 0)));
        }
    }
}

#[test]
fn blank_buffer_holds_an_opaque_background_in_every_pixel() {
    let size = RasterSize::new(16, 9).unwrap();
    let yellow = Rgba8::new(254, 203, 0, 255);
    let buffer = blank_buffer(&size, Some(yellow));
    for y in 0..9 {
        for x in 0..16 {
            assert_eq!(buffer.pixel(x, y), Some(yellow));
        }
    }
    assert!(buffer
        .into_raw()
        .chunks(4)
        .all(|p| p == [254, 203, 0, 255]));
}

#[test]
fn every_opaque_colour_of_a_channel_comes_back() {
    let size = RasterSize::new(1, 1).unwrap();
    for v in 0..=255u8 {
        let c = Rgba8::new(v, 255 - v, v / 2, 255);
        assert_eq!(blank_buffer(&size, Some(c)).pixel(0, 0), Some(c));
    }
}

#[test]
fn translucent_background_keeps_its_alpha() {
    let size = RasterSize::new(3, 2).unwrap();
    let buffer = blank_buffer(&size, Some(Rgba8::new(255, 0, 0, 128)));
    for y in 0..2 {
        for x in 0..3 {
            assert_eq!(buffer.pixel(x, y), Some(Rgba8::new(255, 0, 0, 128)));
        }
    }
    let clear = blank_buffer(&size, Some(Rgba8::new(9, 8, 7, 0)));
    assert_eq!(clear.pixel(2, 1).unwrap().a, 0);
}

#[test]
fn pixels_outside_the_buffer_are_none() {
    let size = RasterSize::new(3, 2).unwrap();
    let buffer = blank_buffer(&size, None);
    assert_eq!(buffer.pixel(3, 0), None);
    assert_eq!(buffer.pixel(0, 2), None);
    assert_eq!(buffer.pixel(u32::MAX, u32::MAX), None);
    assert!(buffer.pixel(2, 1).is_some());
}

#[test]
fn blank_frame_holds_premultiplied_pixels() {
    let size = RasterSize::new(4, 3).unwrap();
    let frame = blank_frame(&size, Some(Rgba8::new(200, 100, 50, 128)));
    assert_eq!(frame.width(), 4);
    assert_eq!(frame.height(), 3);
    assert_eq!(frame.data().len(), 48);
    assert!(frame.data().chunks(4).all(|p| p == [100, 50, 25, 128]));

    let opaque = blank_frame(&size, Some(Rgba8::new(200, 100, 50, 255)));
    assert!(opaque.data().chunks(4).all(|p| p == [200, 100, 50, 255]));

    let empty = blank_frame(&size, None);
    assert!(empty.data().iter().all(|b| *b == 0));
}

#[test]
fn finished_frame_is_demultiplied_pixel_by_pixel() {
    let size = RasterSize::new(2, 2).unwrap();
    let red = Rgba8::new(255, 0, 0, 255);
    let mut frame = blank_frame(&size, Some(red));
    // The second pixel of the first row: blue at half its strength, at half alpha.
    frame.data_mut()[4..8].copy_from_slice(&[0, 0, 64, 128]);
    let buffer = into_buffer(frame).unwrap();
    assert_eq!(buffer.width(), 2);
    assert_eq!(buffer.height(), 2);
    assert_eq!(buffer.pixel(0, 0), Some(red));
    assert_eq!(buffer.pixel(1, 0), Some(Rgba8::new(0, 0, 128, 128)));
    assert_eq!(buffer.pixel(0, 1), Some(red));
    assert_eq!(buffer.pixel(1, 1), Some(red));
}

#[test]
fn later_shape_covers_earlier_shape_in_the_buffer() {
    let size = RasterSize::new(8, 8).unwrap();
    let mut frame = blank_frame(&size, None);
    let mut paint = tiny_skia::Paint::default();
    paint.anti_alias = false;
    let all = tiny_skia::Rect::from_xywh(0.0, 0.0, 8.0, 8.0).unwrap();
    let right = tiny_skia::Rect::from_xywh(4.0, 0.0, 4.0, 8.0).unwrap();
    paint.set_color_rgba8(255, 0, 0, 255);
    frame.fill_rect(all, &paint, tiny_skia::Transform::identity(), None);
    paint.set_color_rgba8(0, 0, 255, 255);
    frame.fill_rect(right, &paint, tiny_skia::Transform::identity(), None);
    let buffer = into_buffer(frame).unwrap();
    assert_eq!(buffer.pixel(1, 4), Some(Rgba8::new(255, 0, 0, 255)));
    assert_eq!(buffer.pixel(6, 4), Some(Rgba8::new(0, 0, 255, 255)));
}

#[test]
fn frame_with_spare_bytes_has_no_buffer() {
    let bytes = [0u8; 20];
    let borrowed = tiny_skia::PixmapRef::from_bytes(&bytes, 2, 2).unwrap();
    let frame = borrowed.to_owned();
    assert_eq!(frame.data().len(), 20);
    assert!(into_buffer(frame).is_none());

    let exact = tiny_skia::PixmapRef::from_bytes(&bytes[..16], 2, 2).unwrap();
    assert!(into_buffer(exact.to_owned()).is_some());
}
