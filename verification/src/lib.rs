//! A verified PNG decoder: parses the chunked container, reverses the
//! per-scanline filters, and assembles an RGB pixel grid ready for a
//! raster encoder.

use vstd::prelude::*;

pub mod filter;
pub mod pixel;
pub mod png;

verus! {

/// One opaque pixel: red, green, blue.
#[derive(Clone, Copy, PartialEq, Eq, Structural, Debug)]
pub struct PixelRGB(pub u8, pub u8, pub u8);

/// One pixel with an alpha channel: red, green, blue, alpha.
#[derive(Clone, Copy, PartialEq, Eq, Structural, Debug)]
pub struct PixelRGBA(pub u8, pub u8, pub u8, pub u8);

/// The pixel store of a decoded image, row-major, origin top-left.
pub enum Pixels {
    RGB(Vec<PixelRGB>),
    RGBA(Vec<PixelRGBA>),
}

impl Pixels {
    /// The pixels as a sequence of RGB triples; empty for the RGBA variant,
    /// which the decoder never produces.
    pub open spec fn rgb_seq(&self) -> Seq<PixelRGB> {
        match self {
            Pixels::RGB(v) => v@,
            Pixels::RGBA(_) => Seq::empty(),
        }
    }
}

/// A fully decoded image: dimensions plus `width * height` pixels.
pub struct IntermediateImage {
    pub width: u32,
    pub height: u32,
    pub pixels: Pixels,
}

} // verus!
