//! Decoders, one per maker, and the registry that picks one.
use vstd::prelude::*;

use crate::error::{DecodingError, RawFileReadingError};
use crate::exif::{info_text, info_u16, info_usize, lookup, number_fields, short_fields, text_fields};
use crate::jpeg::{
    display_jpeg, display_run, find_display_jpeg_slice, is_display_jpeg, lemma_display_run_valid,
    run_bytes, valid_jpeg,
};
use crate::types::{CFAPattern, Crop, Orientation};
use quickexif::ParsedInfo;

verus! {

/// The preview that the metadata declares at `offset`, `len` bytes long, when
/// both are known, it lies within `b`, and it is a displayable JPEG.
pub open spec fn exif_thumbnail_run(b: Seq<u8>, offset: Option<usize>, len: Option<usize>) -> Option<
    (nat, nat),
> {
    match (offset, len) {
        (Some(o), Some(l)) => if o + l <= b.len() && l >= 4 && display_jpeg(
            b.subrange(o as int, o + l),
        ) {
            Some((o as nat, (o + l) as nat))
        } else {
            None
        },
        _ => None,
    }
}

/// The preview a decoder settles on: the declared one when it is usable, else
/// the preview JPEG found by scanning.
pub open spec fn general_thumbnail_run(b: Seq<u8>, offset: Option<usize>, len: Option<usize>) -> Option<
    (nat, nat),
> {
    match exif_thumbnail_run(b, offset, len) {
        Some(r) => Some(r),
        None => display_run(b),
    }
}

/// The preview a decoder settles on lies within the buffer and is a valid JPEG.
pub proof fn lemma_general_run_valid(b: Seq<u8>, offset: Option<usize>, len: Option<usize>)
    ensures
        general_thumbnail_run(b, offset, len) matches Some(p) ==> p.0 <= p.1 <= b.len()
            && valid_jpeg(run_bytes(b, p)),
{
    lemma_display_run_valid(b);
}

/// The declared preview of `buffer`, when it is usable.
pub fn jpeg_from_exif(buffer: &[u8], offset: Option<usize>, len: Option<usize>) -> (r: Option<&[u8]>)
    ensures
        match exif_thumbnail_run(buffer@, offset, len) {
            Some(p) => r matches Some(s) && s@ == run_bytes(buffer@, p),
            None => r is None,
        },
{
    let (o, l) = match (offset, len) {
        (Some(o), Some(l)) => (o, l),
        _ => {
            return None;
        },
    };
    if l > buffer.len() || o > buffer.len() - l || l < 4 {
        return None;
    }
    let slice = vstd::slice::slice_subrange(buffer, o, o + l);
    if is_display_jpeg(slice) {
        Some(slice)
    } else {
        None
    }
}

/// The preview of `buffer` given the declared offset and length: the declared
/// slice when it is a displayable JPEG inside the buffer, else the preview
/// found by scanning, else an error naming the `thumbnail` field.
pub fn thumbnail_from_fields(buffer: &[u8], offset: Option<usize>, len: Option<usize>) -> (r: Result<
    &[u8],
    DecodingError,
>)
    ensures
        match general_thumbnail_run(buffer@, offset, len) {
            Some(p) => r matches Ok(s) && s@ == run_bytes(buffer@, p),
            None => r matches Err(DecodingError::FieldNotFound(n)) && n@ == "thumbnail"@,
        },
{
    if let Some(exif_jpeg) = jpeg_from_exif(buffer, offset, len) {
        return Ok(exif_jpeg);
    }
    if let Some(scanned) = find_display_jpeg_slice(buffer) {
        return Ok(scanned);
    }
    Err(DecodingError::FieldNotFound("thumbnail".to_owned()))
}

/// The decoder for makers whose files follow the TIFF layout with the preview
/// in the second directory.
pub struct General {
    info: ParsedInfo,
}

impl General {
    /// A decoder over already parsed metadata.
    pub fn new(info: ParsedInfo) -> (r: General)
        ensures
            r.spec_info() == info,
    {
        General { info }
    }

    pub closed spec fn spec_info(&self) -> ParsedInfo {
        self.info
    }

    /// The metadata this decoder holds.
    pub fn get_info(&self) -> (r: &ParsedInfo)
        ensures
            *r == self.spec_info(),
    {
        &self.info
    }

    /// Gives up the metadata this decoder holds.
    pub fn into_info(self) -> (r: ParsedInfo)
        ensures
            r == self.spec_info(),
    {
        self.info
    }

    /// These files declare no crop of their own.
    pub fn get_crop(&self) -> (r: Option<Crop>)
        ensures
            r is None,
    {
        None
    }

    /// These sensors are tiled red, green, green, blue.
    pub fn get_cfa_pattern(&self) -> (r: Result<CFAPattern, DecodingError>)
        ensures
            r == Ok::<CFAPattern, DecodingError>(CFAPattern::RGGB),
    {
        Ok(CFAPattern::RGGB)
    }

    /// Sensor decoding is not implemented for these files: it always fails,
    /// saying so.
    pub fn decode_with_preprocess(&self, buffer: &[u8]) -> (r: Result<Vec<u16>, DecodingError>)
        ensures
            r matches Err(DecodingError::NotImplemented(_)),
    {
        Err(DecodingError::NotImplemented("raw decoding".to_owned()))
    }

    /// The preview of `buffer`, preferring the one that the metadata declares.
    pub fn get_thumbnail<'a>(&self, buffer: &'a [u8]) -> (r: Result<&'a [u8], DecodingError>)
        ensures
            match general_thumbnail_run(
                buffer@,
                lookup(number_fields(self.spec_info()), "thumbnail"@),
                lookup(number_fields(self.spec_info()), "thumbnail_len"@),
            ) {
                Some(p) => r matches Ok(s) && s@ == run_bytes(buffer@, p),
                None => r matches Err(DecodingError::FieldNotFound(n)) && n@ == "thumbnail"@,
            },
    {
        let offset = info_usize(&self.info, "thumbnail");
        let len = info_usize(&self.info, "thumbnail_len");
        thumbnail_from_fields(buffer, offset, len)
    }
}

/// The makers that have a decoder.
#[derive(Debug, Clone, Copy, PartialEq, Eq, Structural)]
pub enum Maker {
    Canon,
}

/// The make string under which a maker's files are registered, matched
/// regardless of ASCII case.
pub open spec fn canon_make() -> Seq<char> {
    "Canon"@
}

/// The code of `c` with ASCII capitals lowered.
pub open spec fn ascii_folded(c: char) -> u32 {
    if 65 <= c as u32 <= 90 {
        (c as u32 + 32) as u32
    } else {
        c as u32
    }
}

/// `a` and `b` are equal once ASCII capitals are lowered.
pub open spec fn same_ignoring_ascii_case(a: Seq<char>, b: Seq<char>) -> bool {
    a.len() == b.len() && forall|i: int| 0 <= i < a.len() ==> ascii_folded(a[i]) == ascii_folded(b[i])
}

/// Relies on `str::eq_ignore_ascii_case`: whether the two strings match with
/// ASCII letters compared regardless of case and all other characters exactly.
#[verifier::external_body]
fn eq_ignore_ascii_case(a: &str, b: &str) -> (r: bool)
    ensures
        r == same_ignoring_ascii_case(a@, b@),
{
    a.eq_ignore_ascii_case(b)
}

pub open spec fn opt_text(t: Option<String>) -> Option<Seq<char>> {
    match t {
        Some(s) => Some(s@),
        None => None,
    }
}

/// A decoder is registered for this make, and both make and model are known.
pub open spec fn selection_ok(make: Option<Seq<char>>, model: Option<Seq<char>>) -> bool {
    make is Some && model is Some && same_ignoring_ascii_case(make->0, canon_make())
}

/// `e` is the error that selection reports for this make and model: the make
/// first, then the model, then an unregistered make.
pub open spec fn selection_error(
    make: Option<Seq<char>>,
    model: Option<Seq<char>>,
    e: RawFileReadingError,
) -> bool {
    match (make, model) {
        (None, _) => e is CannotReadMake,
        (Some(_), None) => e is CannotReadModel,
        (Some(m), Some(_)) => !same_ignoring_ascii_case(m, canon_make()) && (
        e matches RawFileReadingError::MakerIsNotSupportedYet(n) && n@ == m),
    }
}

/// The decoder for a file of the given make and model: an error when either is
/// unreadable, the make first, or when no decoder is registered for the make.
/// Makes are compared regardless of ASCII case; the metadata reader has
/// already trimmed them.
pub fn select_maker(make: &Option<String>, model: &Option<String>) -> (r: Result<
    Maker,
    RawFileReadingError,
>)
    ensures
        r is Ok <==> selection_ok(opt_text(*make), opt_text(*model)),
        r matches Ok(k) ==> k == Maker::Canon,
        r matches Err(e) ==> selection_error(opt_text(*make), opt_text(*model), e),
{
    let m = match make {
        Some(m) => m,
        None => {
            return Err(RawFileReadingError::CannotReadMake);
        },
    };
    if model.is_none() {
        return Err(RawFileReadingError::CannotReadModel);
    }
    if eq_ignore_ascii_case(m.as_str(), "Canon") {
        Ok(Maker::Canon)
    } else {
        Err(RawFileReadingError::MakerIsNotSupportedYet(m.clone()))
    }
}

/// The orientation that an Exif orientation value asks for; an absent or
/// unknown value means upright.
pub open spec fn orientation_of(v: Option<u16>) -> Orientation {
    match v {
        Some(3) => Orientation::Rotate180,
        Some(6) => Orientation::Rotate90,
        Some(8) => Orientation::Rotate270,
        _ => Orientation::Horizontal,
    }
}

/// The orientation that an Exif orientation value asks for.
pub fn orientation_from_exif(v: Option<u16>) -> (r: Orientation)
    ensures
        r == orientation_of(v),
{
    match v {
        Some(3) => Orientation::Rotate180,
        Some(6) => Orientation::Rotate90,
        Some(8) => Orientation::Rotate270,
        _ => Orientation::Horizontal,
    }
}

/// A slice of `b` that is a valid JPEG.
pub open spec fn jpeg_part_of(b: Seq<u8>, s: Seq<u8>) -> bool {
    &&& valid_jpeg(s)
    &&& exists|p: (nat, nat)| #![trigger run_bytes(b, p)] p.0 <= p.1 <= b.len() && run_bytes(b, p) == s
}

/// The make and model text fields of a parsed result.
pub open spec fn make_of(texts: Map<Seq<char>, Seq<char>>) -> Option<Seq<char>> {
    lookup(texts, "make"@)
}

pub open spec fn model_of(texts: Map<Seq<char>, Seq<char>>) -> Option<Seq<char>> {
    lookup(texts, "model"@)
}

/// The decoder for the file whose dispatch metadata is `info`.
pub fn select_decoder(info: ParsedInfo) -> (r: Result<General, RawFileReadingError>)
    ensures
        r is Ok <==> selection_ok(make_of(text_fields(info)), model_of(text_fields(info))),
        r matches Ok(d) ==> d.spec_info() == info,
        r matches Err(e) ==> selection_error(make_of(text_fields(info)), model_of(text_fields(info)), e),
{
    let make = info_text(&info, "make");
    let model = info_text(&info, "model");
    match select_maker(&make, &model) {
        Ok(Maker::Canon) => Ok(General::new(info)),
        Err(e) => Err(e),
    }
}

/// Views the preview slice of a result.
pub open spec fn result_bytes(r: Result<(&[u8], Orientation), RawFileReadingError>) -> Result<
    (Seq<u8>, Orientation),
    RawFileReadingError,
> {
    match r {
        Ok(p) => Ok((p.0@, p.1)),
        Err(e) => Err(e),
    }
}

/// `r` is what the decoder picked from these metadata fields gives for the
/// preview of `b`: the selection error, or the decoder's preview with the
/// orientation of the metadata, or the error naming the `thumbnail` field.
pub open spec fn decoder_outcome(
    b: Seq<u8>,
    texts: Map<Seq<char>, Seq<char>>,
    numbers: Map<Seq<char>, usize>,
    shorts: Map<Seq<char>, u16>,
    r: Result<(Seq<u8>, Orientation), RawFileReadingError>,
) -> bool {
    if selection_ok(make_of(texts), model_of(texts)) {
        match general_thumbnail_run(b, lookup(numbers, "thumbnail"@), lookup(numbers, "thumbnail_len"@)) {
            Some(p) => r == Ok::<(Seq<u8>, Orientation), RawFileReadingError>(
                (run_bytes(b, p), orientation_of(lookup(shorts, "orientation"@))),
            ),
            None => r matches Err(RawFileReadingError::DecodingError(DecodingError::FieldNotFound(n)))
                && n@ == "thumbnail"@,
        }
    } else {
        r matches Err(e) && selection_error(make_of(texts), model_of(texts), e)
    }
}

/// Picks the decoder for the metadata `info` and has it find the preview of
/// `buffer`, with the orientation that the metadata gives.
pub fn select_and_decode_thumbnail<'a>(buffer: &'a [u8], info: ParsedInfo) -> (r: Result<
    (&'a [u8], Orientation),
    RawFileReadingError,
>)
    ensures
        decoder_outcome(
            buffer@,
            text_fields(info),
            number_fields(info),
            short_fields(info),
            result_bytes(r),
        ),
{
    let orientation = orientation_from_exif(info_u16(&info, "orientation"));
    let decoder = match select_decoder(info) {
        Ok(d) => d,
        Err(e) => {
            return Err(e);
        },
    };
    match decoder.get_thumbnail(buffer) {
        Ok(s) => Ok((s, orientation)),
        Err(e) => Err(RawFileReadingError::DecodingError(e)),
    }
}

/// Where the metadata declares the preview at `offset`, `len` bytes long, and
/// that slice is a displayable JPEG, it is taken when it ends exactly at the
/// end of the buffer, and never when it runs past the end.
pub proof fn lemma_declared_preview_bounds(b: Seq<u8>, offset: usize, len: usize)
    ensures
        offset + len == b.len() && len >= 4 && display_jpeg(b.subrange(offset as int, b.len() as int))
            ==> exif_thumbnail_run(b, Some(offset), Some(len)) == Some((offset as nat, b.len())),
        offset + len > b.len() ==> exif_thumbnail_run(b, Some(offset), Some(len)) is None,
{
}

} // verus!
