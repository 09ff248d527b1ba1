//! A vector-drawing core: colours with a hexadecimal text form, and a canvas
//! that records shapes in drawing order for a renderer to consume.

pub mod canvas;
pub mod color;
pub mod decimal;
pub mod hex;
pub mod hsv;
pub mod mapping;
pub mod pixmap;
pub mod raster;
pub mod shape;
pub mod svg;

pub use canvas::{Canvas, Record, Renderer};
pub use color::{HexError, Rgba8};
pub use mapping::Mapping;
pub use pixmap::PixelBuffer;
pub use raster::{ConfigError, RasterSize};
pub use shape::{LineEnd, Path, PathBuilder, Point, Segment, Shape, Stroke};
pub use svg::SvgWriter;
