//! Container parsing and preview recovery for camera raw files: normalising
//! raw buffers, reading the metadata that selects a decoder, and finding the
//! embedded preview JPEG, with fallbacks for containers that stray from the
//! TIFF/Exif layout.
use vstd::prelude::*;

pub mod container;
pub mod decode;
pub mod error;
pub mod exif;
pub mod jpeg;
pub mod maker;
pub mod types;

pub use decode::get_thumbnail;
pub use error::{DecodingError, RawFileReadingError};
pub use types::{CFAPattern, Crop, DemosaicingMethod, Input, Orientation, OutputType};

use decode::thumbnail_outcome;
use maker::jpeg_part_of;

verus! {

/// Views the copied preview of a result.
pub open spec fn owned_result_bytes(r: Result<(Vec<u8>, Orientation), RawFileReadingError>) -> Result<
    (Seq<u8>, Orientation),
    RawFileReadingError,
> {
    match r {
        Ok(p) => Ok((p.0@, p.1)),
        Err(e) => Err(e),
    }
}

/// Entry points that hand out owned data.
pub struct Export;

impl Export {
    /// The preview JPEG of a raw buffer, copied out, with its orientation: what
    /// `get_thumbnail` gives, bytes copied and errors passed on.
    pub fn export_thumbnail_data(buffer: &[u8]) -> (r: Result<(Vec<u8>, Orientation), RawFileReadingError>)
        ensures
            thumbnail_outcome(buffer@, owned_result_bytes(r)),
            r matches Ok(p) ==> jpeg_part_of(buffer@, p.0@),
    {
        match get_thumbnail(buffer) {
            Ok((thumbnail, orientation)) => Ok((vstd::slice::slice_to_vec(thumbnail), orientation)),
            Err(e) => Err(e),
        }
    }
}

} // verus!
