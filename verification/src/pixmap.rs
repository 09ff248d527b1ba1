//! The raster backend's frame and output: a `tiny_skia` pixmap with nothing
//! drawn on it, and the pixel buffer that a finished pixmap is turned into.
//!
//! A pixmap holds premultiplied pixels: the colour channels of a pixel are
//! scaled by its alpha. The output buffer holds them demultiplied again. What
//! `tiny_skia` does is taken on trust here, each time as its source states it;
//! the rest is proved.

use vstd::prelude::*;
use crate::color::Rgba8;
use crate::raster::{RasterSize, MAX_WIDTH};

verus! {

/// `tiny_skia::Pixmap`, an owned buffer of premultiplied RGBA pixels. Nothing
/// inside it is visible; its bytes and its size go by the two names below.
#[verifier::external_type_specification]
#[verifier::external_body]
pub struct ExPixmap(tiny_skia::Pixmap);

/// The bytes of a pixmap: for each pixel red, green, blue and alpha, row
/// after row from the top.
pub uninterp spec fn pixmap_bytes(pixmap: tiny_skia::Pixmap) -> Seq<u8>;

/// The size that a pixmap was made with: the number of pixels in a row, and
/// the number of rows.
pub uninterp spec fn pixmap_size(pixmap: tiny_skia::Pixmap) -> (u32, u32);

/// Whether a pixmap's data holds exactly four bytes for each of its pixels.
/// One that `blank_frame` made does; one made from borrowed data may hold
/// more.
pub open spec fn is_exact(pixmap: tiny_skia::Pixmap) -> bool {
    pixmap_bytes(pixmap).len() == 4 * pixmap_size(pixmap).0 * pixmap_size(pixmap).1
}

/// What `tiny_skia::PremultipliedColorU8::demultiply` makes of the four bytes
/// of a premultiplied pixel: the four bytes of the pixel with its channels
/// divided by its alpha again.
pub uninterp spec fn demultiplied(pixel: Seq<u8>) -> Seq<u8>;

/// A channel scaled by an alpha: `c * a / 255`, rounded to the nearest.
pub open spec fn premultiplied_channel(c: u8, a: u8) -> u8 {
    let product = c as int * a as int + 128;
    ((product + product / 256) / 256) as u8
}

/// A colour with its channels scaled by its alpha. An opaque colour is left
/// as it is.
pub open spec fn premultiplied(c: Rgba8) -> Rgba8 {
    if c.a == 255 {
        c
    } else {
        Rgba8 {
            r: premultiplied_channel(c.r, c.a),
            g: premultiplied_channel(c.g, c.a),
            b: premultiplied_channel(c.b, c.a),
            a: c.a,
        }
    }
}

/// The four bytes of a pixel.
pub open spec fn pixel_bytes(c: Rgba8) -> Seq<u8> {
    seq![c.r, c.g, c.b, c.a]
}

/// The four bytes of pixel `i` in a buffer.
pub open spec fn pixel_at(bytes: Seq<u8>, i: int) -> Seq<u8> {
    bytes.subrange(4 * i, 4 * i + 4)
}

/// The bytes of `count` pixels that are all `c`.
pub open spec fn uniform_bytes(count: nat, c: Rgba8) -> Seq<u8> {
    Seq::new(4 * count, |i: int| pixel_bytes(c)[i % 4])
}

/// The pixel of a frame with nothing drawn on it: the background,
/// premultiplied, or transparent black without one.
pub open spec fn blank_pixel(background: Option<Rgba8>) -> Rgba8 {
    match background {
        Some(c) => premultiplied(c),
        None => Rgba8 { r: 0, g: 0, b: 0, a: 0 },
    }
}

/// `tiny_skia::ColorU8::premultiply`, on a colour built with
/// `ColorU8::from_rgba`. An opaque colour comes back unchanged; otherwise
/// each colour channel goes through `premultiply_u8`, which adds 128 to the
/// product with alpha and divides by 255 by two shifts, and alpha stays.
#[verifier::external_body]
fn premultiply(c: Rgba8) -> (p: Rgba8)
    ensures
        p == premultiplied(c),
{
    let p = tiny_skia::ColorU8::from_rgba(c.r, c.g, c.b, c.a).premultiply();
    Rgba8 { r: p.red(), g: p.green(), b: p.blue(), a: p.alpha() }
}

/// `tiny_skia::Pixmap::from_vec`, with its size made by
/// `tiny_skia::IntSize::from_wh`. The size exists where neither side is zero;
/// the pixmap exists where, besides, four times the width fits an `i32` and
/// the data holds exactly four bytes for each pixel. The pixmap then owns
/// the data as given.
#[verifier::external_body]
fn pixmap_from_vec(data: Vec<u8>, width: u32, height: u32) -> (made: Option<tiny_skia::Pixmap>)
    ensures
        made.is_some() == (width > 0 && height > 0 && width <= MAX_WIDTH && data@.len() == 4
            * width * height),
        made.is_some() ==> pixmap_size(made.unwrap()).0 == width && pixmap_size(made.unwrap()).1
            == height && pixmap_bytes(made.unwrap()) == data@,
{
    match tiny_skia::IntSize::from_wh(width, height) {
        Some(size) => tiny_skia::Pixmap::from_vec(data, size),
        None => None,
    }
}

/// `tiny_skia::Pixmap::width`: the width that the pixmap was made with, which
/// is never zero.
pub assume_specification[ tiny_skia::Pixmap::width ](pixmap: &tiny_skia::Pixmap) -> (w: u32)
    ensures
        w == pixmap_size(*pixmap).0,
        w > 0,
;

/// `tiny_skia::Pixmap::height`: the height that the pixmap was made with,
/// which is never zero.
pub assume_specification[ tiny_skia::Pixmap::height ](pixmap: &tiny_skia::Pixmap) -> (h: u32)
    ensures
        h == pixmap_size(*pixmap).1,
        h > 0,
;

/// `tiny_skia::Pixmap::data`: the pixmap's bytes, borrowed.
pub assume_specification<'a>[ tiny_skia::Pixmap::data ](pixmap: &'a tiny_skia::Pixmap) -> (data:
    &'a [u8])
    ensures
        data@ == pixmap_bytes(*pixmap),
;

/// `tiny_skia::Pixmap::take_demultiplied`: the pixmap's own data, after each
/// pixel was replaced by what `demultiply` makes of it. `demultiply` keeps
/// the alpha of every pixel and returns an opaque pixel unchanged. The data
/// is taken four bytes at a time, so its length must be a multiple of four.
#[verifier::external_body]
fn take_demultiplied(pixmap: tiny_skia::Pixmap) -> (data: Vec<u8>)
    requires
        pixmap_bytes(pixmap).len() % 4 == 0,
    ensures
        data@.len() == pixmap_bytes(pixmap).len(),
        forall|i: int|
            0 <= i && 4 * i + 4 <= data@.len() ==> {
                &&& #[trigger] pixel_at(data@, i) == demultiplied(
                    pixel_at(pixmap_bytes(pixmap), i),
                )
                &&& pixel_at(data@, i)[3] == pixel_at(pixmap_bytes(pixmap), i)[3]
                &&& pixel_at(pixmap_bytes(pixmap), i)[3] == 255 ==> pixel_at(data@, i)
                    == pixel_at(pixmap_bytes(pixmap), i)
            },
{
    pixmap.take_demultiplied()
}

/// The place of the pixel at column `x` of row `y` among the pixels of a
/// buffer, counted row after row: it lies within the buffer.
pub open spec fn pixel_index(width: u32, x: u32, y: u32) -> int {
    y * width + x
}

/// The pixel at column `x` of row `y` in the bytes of a buffer of the given
/// width.
pub open spec fn pixel_of(bytes: Seq<u8>, width: u32, x: u32, y: u32) -> Rgba8 {
    let at = 4 * pixel_index(width, x, y);
    Rgba8 { r: bytes[at], g: bytes[at + 1], b: bytes[at + 2], a: bytes[at + 3] }
}

/// The pixel at column `x` of row `y` has the four bytes at its place.
pub proof fn lemma_pixel_of(bytes: Seq<u8>, width: u32, height: u32, x: u32, y: u32)
    requires
        bytes.len() == 4 * width * height,
        x < width,
        y < height,
    ensures
        pixel_bytes(pixel_of(bytes, width, x, y)) == pixel_at(
            bytes,
            pixel_index(width, x, y),
        ),
{
    lemma_pixel_index(width, height, x, y);
    let i = pixel_index(width, x, y);
    let got = pixel_at(bytes, i);
    assert(got[0] == bytes[4 * i]);
    assert(got[1] == bytes[4 * i + 1]);
    assert(got[2] == bytes[4 * i + 2]);
    assert(got[3] == bytes[4 * i + 3]);
    assert(pixel_bytes(pixel_of(bytes, width, x, y)) =~= got);
}

/// A pixel inside a buffer has its four bytes inside the buffer's data.
pub proof fn lemma_pixel_index(width: u32, height: u32, x: u32, y: u32)
    requires
        x < width,
        y < height,
    ensures
        0 <= y * width <= pixel_index(width, x, y) < width * height,
        4 * pixel_index(width, x, y) + 4 <= 4 * width * height,
        4 * (width * height) == 4 * width * height,
{
    assert(y * width + x < width * height) by (nonlinear_arith)
        requires
            x < width,
            y < height,
    ;
    assert(4 * (width * height) == 4 * width * height) by (nonlinear_arith);
    assert(y * width >= 0) by (nonlinear_arith);
}

/// Two colours with the same four bytes are one colour, and one equal byte
/// is one equal channel.
pub proof fn lemma_same_bytes(p: Rgba8, q: Rgba8, bytes: Seq<u8>)
    requires
        pixel_bytes(p) == bytes,
    ensures
        bytes[3] == p.a,
        bytes == pixel_bytes(q) ==> p == q,
        pixel_bytes(q)[3] == q.a,
{
    if bytes == pixel_bytes(q) {
        assert(pixel_bytes(p)[0] == pixel_bytes(q)[0]);
        assert(pixel_bytes(p)[1] == pixel_bytes(q)[1]);
        assert(pixel_bytes(p)[2] == pixel_bytes(q)[2]);
        assert(pixel_bytes(p)[3] == pixel_bytes(q)[3]);
    }
}

/// Every pixel of a uniform buffer is the pixel it was made of.
pub proof fn lemma_uniform_pixel(count: nat, c: Rgba8, i: int)
    requires
        0 <= i < count,
    ensures
        pixel_at(uniform_bytes(count, c), i) == pixel_bytes(c),
{
    let bytes = uniform_bytes(count, c);
    let got = pixel_at(bytes, i);
    assert(got.len() == 4);
    assert(got[0] == bytes[4 * i] && (4 * i) % 4 == 0);
    assert(got[1] == bytes[4 * i + 1] && (4 * i + 1) % 4 == 1);
    assert(got[2] == bytes[4 * i + 2] && (4 * i + 2) % 4 == 2);
    assert(got[3] == bytes[4 * i + 3] && (4 * i + 3) % 4 == 3);
    assert(got =~= pixel_bytes(c));
}

/// An RGBA pixel buffer: four bytes for each pixel, demultiplied, row after
/// row from the top.
#[derive(Debug, PartialEq, Eq)]
pub struct PixelBuffer {
    width: u32,
    height: u32,
    data: Vec<u8>,
}

impl View for PixelBuffer {
    type V = Seq<u8>;

    /// The bytes of the buffer.
    closed spec fn view(&self) -> Seq<u8> {
        self.data@
    }
}

impl PixelBuffer {
    /// The data holds four bytes for each pixel.
    #[verifier::type_invariant]
    spec fn valid(self) -> bool {
        self.data@.len() == 4 * self.width * self.height
    }

    /// The number of pixels in a row.
    pub closed spec fn spec_width(&self) -> u32 {
        self.width
    }

    /// The number of rows.
    pub closed spec fn spec_height(&self) -> u32 {
        self.height
    }

    /// The pixel at column `x` of row `y`.
    pub open spec fn spec_pixel(&self, x: u32, y: u32) -> Rgba8
        recommends
            x < self.spec_width(),
            y < self.spec_height(),
    {
        pixel_of(self@, self.spec_width(), x, y)
    }

    /// The number of pixels in a row.
    pub fn width(&self) -> (w: u32)
        ensures
            w == self.spec_width(),
    {
        self.width
    }

    /// The number of rows.
    pub fn height(&self) -> (h: u32)
        ensures
            h == self.spec_height(),
    {
        self.height
    }

    /// The pixel at column `x` of row `y`, or `None` outside the buffer.
    pub fn pixel(&self, x: u32, y: u32) -> (p: Option<Rgba8>)
        ensures
            p == if x < self.spec_width() && y < self.spec_height() {
                Some(self.spec_pixel(x, y))
            } else {
                None
            },
            self@.len() == 4 * self.spec_width() * self.spec_height(),
    {
        proof {
            use_type_invariant(self);
        }
        if x >= self.width || y >= self.height {
            return None;
        }
        proof {
            lemma_pixel_index(self.width, self.height, x, y);
        }
        // The data's length is a `usize`, and so is every place in it.
        let _len: usize = self.data.len();
        let width = self.width as u64;
        let index: u64 = (y as u64) * width + (x as u64);
        let at: usize = (4 * index) as usize;
        Some(
            Rgba8 {
                r: self.data[at],
                g: self.data[at + 1],
                b: self.data[at + 2],
                a: self.data[at + 3],
            },
        )
    }

    /// The bytes of the buffer.
    pub fn as_raw(&self) -> (data: &Vec<u8>)
        ensures
            data@ == self@,
            self@.len() == 4 * self.spec_width() * self.spec_height(),
    {
        proof {
            use_type_invariant(self);
        }
        &self.data
    }

    /// The bytes of the buffer, given up by it.
    pub fn into_raw(self) -> (data: Vec<u8>)
        ensures
            data@ == self@,
            self@.len() == 4 * self.spec_width() * self.spec_height(),
    {
        proof {
            use_type_invariant(&self);
        }
        self.data
    }
}

/// The frame of a raster backend with nothing drawn on it: a pixmap of the
/// given size, every pixel of which is the background, premultiplied, or
/// transparent black without one.
pub fn blank_frame(size: &RasterSize, background: Option<Rgba8>) -> (frame: tiny_skia::Pixmap)
    ensures
        pixmap_size(frame).0 == size.spec_width(),
        pixmap_size(frame).1 == size.spec_height(),
        pixmap_bytes(frame) == uniform_bytes(
            size.spec_width() as nat * size.spec_height() as nat,
            blank_pixel(background),
        ),
{
    let width = size.width();
    let height = size.height();
    let len = size.byte_len();
    let pixel = match background {
        Some(c) => premultiply(c),
        None => Rgba8 { r: 0, g: 0, b: 0, a: 0 },
    };
    let ghost count = width as nat * height as nat;
    assert(len == 4 * count) by (nonlinear_arith)
        requires
            len == 4 * width * height,
            count == width as nat * height as nat,
    ;
    let mut data: Vec<u8> = Vec::with_capacity(len);
    let mut filled: usize = 0;
    while filled < len
        invariant
            len == 4 * count,
            filled <= len,
            filled % 4 == 0,
            data@.len() == filled,
            forall|i: int| 0 <= i < filled ==> data@[i] == pixel_bytes(pixel)[i % 4],
        decreases len - filled,
    {
        data.push(pixel.r);
        data.push(pixel.g);
        data.push(pixel.b);
        data.push(pixel.a);
        filled = filled + 4;
    }
    assert(data@ =~= uniform_bytes(count, pixel));
    let made = pixmap_from_vec(data, width, height);
    made.unwrap()
}

/// The output of a raster backend: the pixels of a finished frame,
/// demultiplied. Each pixel keeps its alpha, and an opaque pixel its colour.
/// There is an output where the frame's data holds exactly four bytes for
/// each pixel, and only there.
pub fn into_buffer(frame: tiny_skia::Pixmap) -> (made: Option<PixelBuffer>)
    ensures
        made.is_some() == is_exact(frame),
        made.is_some() ==> {
            let buffer = made.unwrap();
            &&& buffer.spec_width() == pixmap_size(frame).0
            &&& buffer.spec_height() == pixmap_size(frame).1
            &&& buffer@.len() == pixmap_bytes(frame).len()
            &&& forall|i: int|
                0 <= i && 4 * i + 4 <= buffer@.len() ==> {
                    &&& #[trigger] pixel_at(buffer@, i) == demultiplied(
                        pixel_at(pixmap_bytes(frame), i),
                    )
                    &&& pixel_at(buffer@, i)[3] == pixel_at(pixmap_bytes(frame), i)[3]
                    &&& pixel_at(pixmap_bytes(frame), i)[3] == 255 ==> pixel_at(buffer@, i)
                        == pixel_at(pixmap_bytes(frame), i)
                }
        },
{
    let width = frame.width();
    let height = frame.height();
    let len = frame.data().len();
    assert(width * height <= 0xffff_ffff * 0xffff_ffff) by (nonlinear_arith)
        requires
            width <= 0xffff_ffff,
            height <= 0xffff_ffff,
    ;
    let pixels: u128 = (width as u128) * (height as u128);
    assert(4 * pixels == 4 * width * height) by (nonlinear_arith)
        requires
            pixels == width * height,
    ;
    if (len as u128) != 4 * pixels {
        return None;
    }
    let data = take_demultiplied(frame);
    Some(PixelBuffer { width, height, data })
}

/// What a raster backend makes of a canvas without shapes: a buffer of the
/// given size whose pixels are all alike. Without a background every pixel is
/// fully transparent; an opaque background is the colour of every pixel; a
/// translucent one comes back through premultiplying and demultiplying, with
/// its alpha kept.
pub fn blank_buffer(size: &RasterSize, background: Option<Rgba8>) -> (buffer: PixelBuffer)
    ensures
        buffer.spec_width() == size.spec_width(),
        buffer.spec_height() == size.spec_height(),
        buffer@.len() == 4 * size.spec_width() * size.spec_height(),
        forall|x: u32, y: u32|
            x < size.spec_width() && y < size.spec_height() ==> {
                let p = #[trigger] buffer.spec_pixel(x, y);
                &&& pixel_bytes(p) == demultiplied(pixel_bytes(blank_pixel(background)))
                &&& background is None ==> p.a == 0
                &&& background is Some ==> p.a == background.unwrap().a
                &&& background is Some && background.unwrap().a == 255 ==> p
                    == background.unwrap()
            },
{
    let frame = blank_frame(size, background);
    let ghost w = size.spec_width();
    let ghost h = size.spec_height();
    let ghost count = w as nat * h as nat;
    let ghost blank = blank_pixel(background);
    proof {
        assert(4 * count == 4 * w * h) by (nonlinear_arith)
            requires
                count == w as nat * h as nat,
        ;
    }
    let buffer = into_buffer(frame).unwrap();
    proof {
        assert forall|x: u32, y: u32| x < w && y < h implies {
            let p = #[trigger] buffer.spec_pixel(x, y);
            &&& pixel_bytes(p) == demultiplied(pixel_bytes(blank))
            &&& p.a == blank.a
            &&& blank.a == 255 ==> p == blank
        } by {
            let i = pixel_index(w, x, y);
            lemma_pixel_index(w, h, x, y);
            lemma_uniform_pixel(count, blank, i);
            lemma_pixel_of(buffer@, w, h, x, y);
            lemma_same_bytes(buffer.spec_pixel(x, y), blank, pixel_at(buffer@, i));
        }
    }
    buffer
}

} // verus!
