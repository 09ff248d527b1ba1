//! How the logical square of a canvas lies on a pixel buffer.
//!
//! The origin of the logical space goes to the centre of the buffer. One
//! logical unit is as many pixels along x as along y: the buffer's shorter
//! side over the canvas's logical size. The logical y axis points up, the
//! buffer's rows run down. The mapping is held in whole numbers, so that
//! what it does to a point can be said exactly; whoever draws turns them into
//! the numbers of the drawing engine.

use vstd::prelude::*;
use crate::raster::RasterSize;

verus! {

/// The mapping from logical space to the pixels of a buffer: a point
/// `(x, y)` goes to `(width / 2 + x * pixels / units, height / 2 - y * pixels
/// / units)`.
#[derive(Clone, Copy, Debug, PartialEq, Eq, Structural)]
pub struct Mapping {
    /// The pixels that `units` logical units take: the shorter side of the
    /// buffer.
    pub pixels: u32,
    /// The logical size of the canvas.
    pub units: u32,
    /// The width of the buffer, in pixels.
    pub width: u32,
    /// The height of the buffer, in pixels.
    pub height: u32,
}

impl Mapping {
    /// What the pixel coordinates of a point are divided by, for a logical
    /// coordinate given as `n / d`: the column of the point is `column_num`
    /// over this, its row `row_num` over this.
    pub open spec fn den(&self, d: int) -> int {
        2 * self.units * d
    }

    /// The column of the logical x coordinate `n / d`, times `den(d)`.
    pub open spec fn column_num(&self, n: int, d: int) -> int {
        self.units * d * self.width + 2 * self.pixels * n
    }

    /// The row of the logical y coordinate `n / d`, times `den(d)`.
    pub open spec fn row_num(&self, n: int, d: int) -> int {
        self.units * d * self.height - 2 * self.pixels * n
    }
}

/// The mapping of a canvas of the given logical size onto a buffer of the
/// given size.
pub fn mapping(size: &RasterSize, logical_size: u32) -> (m: Mapping)
    ensures
        m.width == size.spec_width(),
        m.height == size.spec_height(),
        m.units == logical_size,
        m.pixels == if size.spec_width() <= size.spec_height() {
            size.spec_width()
        } else {
            size.spec_height()
        },
{
    let width = size.width();
    let height = size.height();
    let pixels = if width <= height {
        width
    } else {
        height
    };
    Mapping { pixels, units: logical_size, width, height }
}

/// The logical origin goes to the exact centre of the buffer, whatever the
/// size of the buffer and of the canvas: its column is half the width and its
/// row half the height.
pub proof fn lemma_origin_at_centre(m: Mapping, d: int)
    ensures
        2 * m.column_num(0, d) == m.den(d) * m.width,
        2 * m.row_num(0, d) == m.den(d) * m.height,
{
    assert(2 * (m.units * d * m.width) == (2 * m.units * d) * m.width) by (nonlinear_arith);
    assert(2 * (m.units * d * m.height) == (2 * m.units * d) * m.height) by (nonlinear_arith);
}

/// On a square buffer the logical square fills the buffer: its left edge is
/// column 0 and its right edge the width, its upper edge is row 0 and its
/// lower edge the height.
pub proof fn lemma_square_fills_buffer(m: Mapping)
    requires
        m.pixels == m.width,
        m.pixels == m.height,
    ensures
        m.column_num(-(m.units as int), 2) == 0,
        m.column_num(m.units as int, 2) == m.den(2) * m.width,
        m.row_num(m.units as int, 2) == 0,
        m.row_num(-(m.units as int), 2) == m.den(2) * m.height,
{
    let u = m.units as int;
    let p = m.pixels as int;
    assert(u * 2 * p + 2 * p * (-u) == 0) by (nonlinear_arith);
    assert(u * 2 * p + 2 * p * u == (2 * u * 2) * p) by (nonlinear_arith);
    assert(u * 2 * p - 2 * p * u == 0) by (nonlinear_arith);
    assert(u * 2 * p - 2 * p * (-u) == (2 * u * 2) * p) by (nonlinear_arith);
}

/// Columns grow with x and rows fall with y, by the same amount for the same
/// step: the scale is uniform and the y axis is turned over.
pub proof fn lemma_uniform_and_flipped(m: Mapping, n: int, step: int, d: int)
    ensures
        m.column_num(n + step, d) - m.column_num(n, d) == 2 * m.pixels * step,
        m.row_num(n, d) - m.row_num(n + step, d) == 2 * m.pixels * step,
        step > 0 && m.pixels > 0 ==> m.column_num(n + step, d) > m.column_num(n, d) && m.row_num(
            n + step,
            d,
        ) < m.row_num(n, d),
{
    let p = m.pixels as int;
    assert(2 * p * (n + step) == 2 * p * n + 2 * p * step) by (nonlinear_arith);
    if step > 0 && p > 0 {
        assert(2 * p * step > 0) by (nonlinear_arith)
            requires
                step > 0,
                p > 0,
        ;
    }
}

} // verus!
