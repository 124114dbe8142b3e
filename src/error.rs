//! Errors of decoding a raw file.
use vstd::prelude::*;

verus! {

/// A decoder failed on the buffer it was handed.
#[derive(Debug)]
pub enum DecodingError {
    /// The metadata lacks the named field, or no data stands in for it.
    FieldNotFound(String),
    /// The decoder has no implementation of the named step.
    NotImplemented(String),
}

/// Errors of reading a raw file.
#[derive(Debug)]
pub enum RawFileReadingError {
    /// The metadata tree is malformed.
    ExifParseError(quickexif::parser::Error),
    /// The metadata tree is cut short, or points outside the buffer.
    MetadataOutOfBounds,
    DecodingError(DecodingError),
    FileNotExisted(String),
    FileMetadataReadingError(String),
    FileContentReadingError(String),
    CannotReadMake,
    CannotReadModel,
    MakerIsNotSupportedYet(String),
    ModelIsNotSupportedYet(String),
}

} // verus!
