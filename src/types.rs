//! Plain data shared by the decoders and their callers.
use vstd::prelude::*;

verus! {

/// Colour-filter-array tiling of a sensor.
#[allow(clippy::upper_case_acronyms)]
#[derive(Debug, Clone, Copy, PartialEq, Eq, Structural)]
pub enum CFAPattern {
    RGGB,
    GRBG,
    GBRG,
    BGGR,
    /// X-Trans, first row `RBGBRG`.
    XTrans0,
    /// X-Trans, first row `GGRGGB`.
    XTrans1,
}

/// Active area of a sensor readout, in sensor pixels.
#[derive(Debug, Clone, Copy, PartialEq, Eq, Structural)]
pub struct Crop {
    pub x: u32,
    pub y: u32,
    pub width: u32,
    pub height: u32,
}

/// How an image must be turned to be seen upright.
#[derive(Debug, Clone, Copy, PartialEq, Eq, Structural)]
pub enum Orientation {
    Horizontal,
    Rotate90,
    Rotate180,
    Rotate270,
}

pub open spec fn spec_degrees(o: Orientation) -> u32 {
    match o {
        Orientation::Horizontal => 0,
        Orientation::Rotate90 => 90,
        Orientation::Rotate180 => 180,
        Orientation::Rotate270 => 270,
    }
}

impl Orientation {
    /// The clockwise rotation in degrees, as in Exif usage.
    pub fn degrees(&self) -> (r: u32)
        ensures
            r == spec_degrees(*self),
    {
        match self {
            Orientation::Horizontal => 0,
            Orientation::Rotate90 => 90,
            Orientation::Rotate180 => 180,
            Orientation::Rotate270 => 270,
        }
    }
}

/// All the demosaicing methods a renderer may be asked for.
#[derive(Debug, Clone, Copy, PartialEq, Eq, Structural)]
pub enum DemosaicingMethod {
    /// No demosaicing: samples stay one colour per site.
    Disabled,
    SuperPixel,
    Linear,
}

/// Whether a rendered image is 8 or 16 bits per sample, raw or encoded into the
/// named file.
#[derive(Debug, Clone)]
pub enum OutputType {
    Raw8,
    Raw16,
    Image8(String),
    Image16(String),
}

/// Where the bytes of a raw file come from.
#[derive(Debug)]
pub enum Input<'a> {
    ByFile(&'a str),
    ByBuffer(Vec<u8>),
}

} // verus!
