use barium::mapping::mapping;
use barium::{Mapping, RasterSize};

#[test]
fn scale_is_the_shorter_side_over_the_logical_size() {
    let wide = RasterSize::new(300, 200).unwrap();
    assert_eq!(
        mapping(&wide, 2),
        Mapping { pixels: 200, units: 2, width: 300, height: 200 }
    );
    let tall = RasterSize::new(200, 300).unwrap();
    assert_eq!(
        mapping(&tall, 1000),
        Mapping { pixels: 200, units: 1000, width: 200, height: 300 }
    );
    let square = RasterSize::new(1000, 1000).unwrap();
    assert_eq!(
        mapping(&square, 1000),
        Mapping { pixels: 1000, units: 1000, width: 1000, height: 1000 }
    );
}

#[test]
fn origin_is_the_centre_for_every_size() {
    for (w, h, units) in [(1u32, 1u32, 1u32), (7, 3, 2), (1000, 1000, 1000), (640, 480, 5)] {
        let m = mapping(&RasterSize::new(w, h).unwrap(), units);
        // A point (x, y) goes to (width / 2 + x * pixels / units,
        // height / 2 - y * pixels / units).
        let column = m.width as f64 / 2.0 + 0.0 * m.pixels as f64 / m.units as f64;
        let row = m.height as f64 / 2.0 - 0.0 * m.pixels as f64 / m.units as f64;
        assert_eq!(column, w as f64 / 2.0);
        assert_eq!(row, h as f64 / 2.0);
    }
}

#[test]
fn a_canvas_without_extent_still_has_a_mapping() {
    let m = mapping(&RasterSize::new(10, 10).unwrap(), 0);
    assert_eq!(m.units, 0);
    assert_eq!(m.pixels, 10);
}
