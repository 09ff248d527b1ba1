use barium::mapping::mapping;
use barium::pixmap::{blank_frame, into_buffer};
use barium::{
    Canvas, LineEnd, PixelBuffer, Point, RasterSize, Record, Renderer, Rgba8, Shape, Stroke,
};
use tiny_skia::{FillRule, LineCap, Paint, PathBuilder, Pixmap, Transform};

/// A raster backend for canvases in `f32` coordinates with eight-bit paint:
/// the logical square goes onto the whole buffer, y upwards.
struct Raster {
    size: RasterSize,
    background: Option<Rgba8>,
}

fn paint(c: Rgba8) -> Paint<'static> {
    let mut paint = Paint::default();
    paint.set_color_rgba8(c.r, c.g, c.b, c.a);
    paint.anti_alias = false;
    paint
}

impl Renderer<f32, Rgba8> for Raster {
    type Frame = Pixmap;
    type Output = PixelBuffer;

    fn begin(&self, _size: u32) -> Pixmap {
        blank_frame(&self.size, self.background)
    }

    fn draw(&self, mut frame: Pixmap, record: &Record<f32, Rgba8>, size: u32) -> Pixmap {
        let m = mapping(&self.size, size);
        let scale = m.pixels as f32 / m.units as f32;
        let transform = Transform::from_row(
            scale,
            0.0,
            0.0,
            -scale,
            m.width as f32 / 2.0,
            m.height as f32 / 2.0,
        );
        let mut builder = PathBuilder::new();
        match &record.shape {
            Shape::Circle { center, radius } => builder.push_circle(center.x, center.y, *radius),
            Shape::Line { start, end } => {
                builder.move_to(start.x, start.y);
                builder.line_to(end.x, end.y);
            }
            Shape::QuadraticBezier { start, control, end } => {
                builder.move_to(start.x, start.y);
                builder.quad_to(control.x, control.y, end.x, end.y);
            }
            Shape::Path { .. } => {}
        }
        let Some(path) = builder.finish() else {
            return frame;
        };
        if let Some(fill) = record.fill {
            frame.fill_path(&path, &paint(fill), FillRule::Winding, transform, None);
        }
        if let Some(stroke) = &record.stroke {
            let cap = match stroke.line_end {
                LineEnd::Butt => LineCap::Butt,
                LineEnd::Round => LineCap::Round,
                LineEnd::Square => LineCap::Square,
            };
            let style = tiny_skia::Stroke {
                width: stroke.width,
                line_cap: cap,
                ..Default::default()
            };
            frame.stroke_path(&path, &paint(stroke.color), &style, transform, None);
        }
        frame
    }

    fn finish(&self, frame: Pixmap) -> PixelBuffer {
        into_buffer(frame).unwrap()
    }
}

const YELLOW: Rgba8 = Rgba8 { r: 254, g: 203, b: 0, a: 255 };
const BLACK: Rgba8 = Rgba8 { r: 0, g: 0, b: 0, a: 255 };
const CLEAR: Rgba8 = Rgba8 { r: 0, g: 0, b: 0, a: 0 };

fn face(logical_size: u32) -> Canvas<f32, Rgba8> {
    let mut canvas = Canvas::new(logical_size);
    canvas.draw_circle(
        Point::new(0.0, 0.0),
        1.0,
        None,
        Some(Rgba8::from_hex("#fecb00").unwrap()),
    );
    canvas.draw_line(
        Point::new(-0.5, 0.25),
        Point::new(-0.5, 0.0),
        Some(Stroke { color: BLACK, width: 0.2, line_end: LineEnd::Round }),
        None,
    );
    canvas.draw_line(
        Point::new(0.5, 0.25),
        Point::new(0.5, 0.0),
        Some(Stroke { color: BLACK, width: 0.2, line_end: LineEnd::Round }),
        None,
    );
    canvas.draw_quadratic_bezier(
        Point::new(-0.5, -0.3),
        Point::new(0.0, -0.5),
        Point::new(0.5, -0.3),
        Some(Stroke::new(BLACK, 0.02, LineEnd::Round)),
        None,
    );
    canvas
}

#[test]
fn empty_canvas_renders_to_the_background_in_every_pixel() {
    let canvas: Canvas<f32, Rgba8> = Canvas::new(2);
    let size = RasterSize::new(20, 10).unwrap();
    let buffer = canvas.render(Raster { size, background: Some(YELLOW) });
    assert_eq!((buffer.width(), buffer.height()), (20, 10));
    for y in 0..10 {
        for x in 0..20 {
            assert_eq!(buffer.pixel(x, y), Some(YELLOW));
        }
    }
    let buffer = canvas.render(Raster { size, background: None });
    for y in 0..10 {
        for x in 0..20 {
            assert_eq!(buffer.pixel(x, y), Some(CLEAR));
        }
    }
}

#[test]
fn later_opaque_shape_shows_at_the_overlap() {
    let red = Rgba8::new(255, 0, 0, 255);
    let blue = Rgba8::new(0, 0, 255, 255);
    let size = RasterSize::new(100, 100).unwrap();
    let mut canvas: Canvas<f32, Rgba8> = Canvas::new(2);
    canvas.draw_circle(Point::new(0.0, 0.0), 0.8, None, Some(red));
    canvas.draw_circle(Point::new(0.0, 0.0), 0.4, None, Some(blue));
    let buffer = canvas.render(Raster { size, background: None });
    assert_eq!(buffer.pixel(50, 50), Some(blue));
    assert_eq!(buffer.pixel(50, 20), Some(red));
    assert_eq!(buffer.pixel(2, 2), Some(CLEAR));

    let mut swapped: Canvas<f32, Rgba8> = Canvas::new(2);
    swapped.draw_circle(Point::new(0.0, 0.0), 0.4, None, Some(blue));
    swapped.draw_circle(Point::new(0.0, 0.0), 0.8, None, Some(red));
    let buffer = swapped.render(Raster { size, background: None });
    assert_eq!(buffer.pixel(50, 50), Some(red));
}

#[test]
fn smiling_face_in_pixels() {
    // The logical square spans -1..1, one thousand pixels a side.
    let size = RasterSize::new(1000, 1000).unwrap();
    let buffer = face(2).render(Raster { size, background: None });
    assert_eq!((buffer.width(), buffer.height()), (1000, 1000));
    // The disc: its centre, and a point near its rim; the corner lies outside.
    assert_eq!(buffer.pixel(500, 500), Some(YELLOW));
    assert_eq!(buffer.pixel(500, 10), Some(YELLOW));
    assert_eq!(buffer.pixel(5, 5), Some(CLEAR));
    assert_eq!(buffer.pixel(994, 994), Some(CLEAR));
    // The eyes: x = -0.5 and x = 0.5, from y = 0.25 down to y = 0, above the
    // middle row of the buffer because y points up.
    assert_eq!(buffer.pixel(250, 440), Some(BLACK));
    assert_eq!(buffer.pixel(750, 440), Some(BLACK));
    assert_eq!(buffer.pixel(250, 375), Some(BLACK));
    assert_eq!(buffer.pixel(250, 560), Some(YELLOW));
    assert_eq!(buffer.pixel(330, 440), Some(YELLOW));
    // The mouth: it passes through (0, -0.4), below the middle row.
    assert_eq!(buffer.pixel(500, 700), Some(BLACK));
    assert_eq!(buffer.pixel(500, 650), Some(YELLOW));
    assert_eq!(buffer.pixel(500, 750), Some(YELLOW));
    // Left and right halves mirror each other.
    for (x, y) in [(250, 440), (300, 600), (100, 500), (400, 690)] {
        assert_eq!(buffer.pixel(x, y), buffer.pixel(999 - x, y));
    }
}

#[test]
fn face_on_a_canvas_of_a_thousand_units_stays_at_the_centre() {
    let size = RasterSize::new(1000, 1000).unwrap();
    let buffer = face(1000).render(Raster { size, background: None });
    // The disc has a radius of one unit, which is one pixel here.
    assert_eq!(buffer.pixel(499, 499), Some(YELLOW));
    assert_eq!(buffer.pixel(500, 500), Some(YELLOW));
    for y in 0..1000 {
        for x in 0..1000 {
            let near = (498..=501).contains(&x) && (498..=501).contains(&y);
            if !near {
                assert_eq!(buffer.pixel(x, y), Some(CLEAR));
            }
        }
    }
}

#[test]
fn origin_lands_at_the_centre_of_every_buffer() {
    for (w, h) in [(2u32, 2u32), (10, 10), (64, 64), (200, 200), (40, 20), (20, 40)] {
        let size = RasterSize::new(w, h).unwrap();
        let mut canvas: Canvas<f32, Rgba8> = Canvas::new(2);
        // A small disc at the origin covers the four pixels round the centre.
        canvas.draw_circle(Point::new(0.0, 0.0), 2.0 / w.min(h) as f32, None, Some(BLACK));
        let buffer = canvas.render(Raster { size, background: None });
        for (dx, dy) in [(0, 0), (1, 0), (0, 1), (1, 1)] {
            assert_eq!(buffer.pixel(w / 2 - 1 + dx, h / 2 - 1 + dy), Some(BLACK));
        }
        if w > 8 {
            assert_eq!(buffer.pixel(0, 0), Some(CLEAR));
            assert_eq!(buffer.pixel(w - 1, h - 1), Some(CLEAR));
        }
    }
}
