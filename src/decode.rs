//! Finding the metadata of a raw buffer and resolving its preview.
use vstd::prelude::*;

use crate::container::{
    box_thumbnail, canon_cr3_exif_slice, embedded_tiff_start, fuji_buffer_slice_fix,
    try_cr3_thumbnail, unwrapped, VENDOR_HEADER_LEN,
};
use crate::error::RawFileReadingError;
use crate::exif::{
    basic_info_rule, basic_numbers, basic_parse_ok, basic_shorts, basic_texts, basic_tree_in_bounds,
    info_of, is_basic_tree_in_bounds, lookup, parse_exif,
};
use crate::jpeg::{largest_jpeg_slice, largest_run, lemma_largest_run_valid, run_bytes};
use crate::maker::{
    decoder_outcome, jpeg_part_of, lemma_general_run_valid, make_of, model_of, result_bytes,
    select_and_decode_thumbnail, select_decoder, selection_error, selection_ok,
};
use crate::types::Orientation;
use quickexif::ParsedInfo;

verus! {

/// The buffers that metadata sniffing may settle on for `b`: the unwrapped
/// buffer itself, or its part from the embedded TIFF header on.
pub open spec fn sniff_candidate(b: Seq<u8>, s: Seq<u8>) -> bool {
    let u = unwrapped(b);
    s == u || (embedded_tiff_start(u) matches Some(t) && t <= u.len() && s == u.subrange(
        t as int,
        u.len() as int,
    ))
}

/// quickexif can read `b` under the dispatch rule, and does.
pub open spec fn tree_parses(b: Seq<u8>) -> bool {
    basic_tree_in_bounds(b) && basic_parse_ok(b)
}

/// The buffer that metadata sniffing settles on: the unwrapped buffer when its
/// tree parses, else its part from the embedded TIFF header on when that
/// parses, else none.
pub open spec fn sniffed(b: Seq<u8>) -> Option<Seq<u8>> {
    let u = unwrapped(b);
    if tree_parses(u) {
        Some(u)
    } else {
        match embedded_tiff_start(u) {
            Some(t) => if t <= u.len() && tree_parses(u.subrange(t as int, u.len() as int)) {
                Some(u.subrange(t as int, u.len() as int))
            } else {
                None
            },
            None => None,
        }
    }
}

/// Parses the dispatch metadata from the TIFF tree at the start of `buffer`;
/// a tree whose offsets leave the buffer is refused before parsing.
pub fn parse_basic_info(buffer: &[u8]) -> (r: Result<ParsedInfo, RawFileReadingError>)
    ensures
        !basic_tree_in_bounds(buffer@) ==> r matches Err(RawFileReadingError::MetadataOutOfBounds),
        basic_tree_in_bounds(buffer@) ==> (r is Ok <==> basic_parse_ok(buffer@)),
        basic_tree_in_bounds(buffer@) ==> (r matches Err(e) ==> e is ExifParseError),
        r matches Ok(info) ==> info_of(info, buffer@),
{
    if !is_basic_tree_in_bounds(buffer) {
        return Err(RawFileReadingError::MetadataOutOfBounds);
    }
    let rule = basic_info_rule();
    match parse_exif(buffer, &rule) {
        Ok(info) => Ok(info),
        Err(e) => Err(RawFileReadingError::ExifParseError(e)),
    }
}

/// Parses the dispatch metadata of `buffer` after unwrapping it; when that
/// fails, parses the embedded TIFF tree instead. Returns the metadata with the
/// buffer it was read from, to which its offsets refer.
pub fn parse_basic_info_with_fallback<'a>(buffer: &'a [u8]) -> (r: Result<
    (ParsedInfo, &'a [u8]),
    RawFileReadingError,
>)
    ensures
        match sniffed(buffer@) {
            Some(x) => r matches Ok(p) && p.1@ == x && info_of(p.0, x),
            None => r matches Err(e) && (e is ExifParseError || e is MetadataOutOfBounds),
        },
{
    let buffer = fuji_buffer_slice_fix(buffer);
    match parse_basic_info(buffer) {
        Ok(info) => Ok((info, buffer)),
        Err(e) => {
            if let Some(exif_buffer) = canon_cr3_exif_slice(buffer) {
                match parse_basic_info(exif_buffer) {
                    Ok(info) => Ok((info, exif_buffer)),
                    Err(e2) => Err(e2),
                }
            } else {
                Err(e)
            }
        },
    }
}

/// The dispatch metadata of a raw buffer, as the decoder picked for it holds it.
pub fn get_exif_info(buffer: &[u8]) -> (r: Result<ParsedInfo, RawFileReadingError>)
    ensures
        match sniffed(buffer@) {
            None => r matches Err(e) && (e is ExifParseError || e is MetadataOutOfBounds),
            Some(x) => if selection_ok(make_of(basic_texts(x)), model_of(basic_texts(x))) {
                r matches Ok(info) && info_of(info, x)
            } else {
                r matches Err(e) && selection_error(make_of(basic_texts(x)), model_of(basic_texts(x)), e)
            },
        },
{
    let (info, _) = match parse_basic_info_with_fallback(buffer) {
        Ok(p) => p,
        Err(e) => {
            return Err(e);
        },
    };
    match select_decoder(info) {
        Ok(decoder) => Ok(decoder.into_info()),
        Err(e) => Err(e),
    }
}

/// What resolving the preview of `b` gives: for a box-based container, its
/// largest JPEG slice upright; else, when metadata can be read, what the
/// decoder picked from it gives on the buffer it was read from; else the
/// largest JPEG slice of `b` upright; else the metadata error.
pub open spec fn thumbnail_outcome(b: Seq<u8>, r: Result<(Seq<u8>, Orientation), RawFileReadingError>) -> bool {
    match box_thumbnail(b) {
        Some(t) => r == Ok::<(Seq<u8>, Orientation), RawFileReadingError>((t, Orientation::Horizontal)),
        None => match sniffed(b) {
            Some(x) => decoder_outcome(x, basic_texts(x), basic_numbers(x), basic_shorts(x), r),
            None => match largest_run(b) {
                Some(p) => r == Ok::<(Seq<u8>, Orientation), RawFileReadingError>(
                    (run_bytes(b, p), Orientation::Horizontal),
                ),
                None => r matches Err(e) && (e is ExifParseError || e is MetadataOutOfBounds),
            },
        },
    }
}

/// The preview JPEG of a raw buffer and its orientation. A box-based container
/// gives its largest JPEG slice, upright. Otherwise the decoder picked from the
/// metadata finds the preview, and its errors are passed on; when no metadata
/// can be read, the largest JPEG slice of the buffer is taken, upright, and
/// failing that the metadata error is returned.
pub fn get_thumbnail(buffer: &[u8]) -> (r: Result<(&[u8], Orientation), RawFileReadingError>)
    ensures
        thumbnail_outcome(buffer@, result_bytes(r)),
        r matches Ok(p) ==> jpeg_part_of(buffer@, p.0@),
{
    if let Some(result) = try_cr3_thumbnail(buffer) {
        proof {
            lemma_largest_part_of(buffer@);
        }
        return Ok(result);
    }
    match parse_basic_info_with_fallback(buffer) {
        Ok((info, meta_buffer)) => {
            let r = select_and_decode_thumbnail(meta_buffer, info);
            proof {
                lemma_general_run_valid(
                    meta_buffer@,
                    lookup(basic_numbers(meta_buffer@), "thumbnail"@),
                    lookup(basic_numbers(meta_buffer@), "thumbnail_len"@),
                );
                if let Ok(p) = r {
                    lemma_part_of_sniffed(buffer@, meta_buffer@, p.0@);
                }
            }
            r
        },
        Err(e) => {
            if let Some(jpeg) = largest_jpeg_slice(buffer) {
                proof {
                    lemma_largest_part_of(buffer@);
                }
                Ok((jpeg, Orientation::Horizontal))
            } else {
                Err(e)
            }
        },
    }
}

/// Two resolutions of the same bytes agree: both succeed with the same bytes
/// and orientation, or both fail.
pub proof fn lemma_thumbnail_repeatable(
    b: Seq<u8>,
    r1: Result<(Seq<u8>, Orientation), RawFileReadingError>,
    r2: Result<(Seq<u8>, Orientation), RawFileReadingError>,
)
    requires
        thumbnail_outcome(b, r1),
        thumbnail_outcome(b, r2),
    ensures
        r1 is Ok <==> r2 is Ok,
        r1 is Ok ==> r1 == r2,
{
}

proof fn lemma_largest_part_of(b: Seq<u8>)
    ensures
        largest_run(b) matches Some(p) ==> jpeg_part_of(b, run_bytes(b, p)),
{
    lemma_largest_run_valid(b);
}

/// The buffer that sniffing settles on is a suffix of the input.
proof fn lemma_sniffed_is_suffix(b: Seq<u8>, m: Seq<u8>) -> (k: nat)
    requires
        sniff_candidate(b, m),
    ensures
        k <= b.len(),
        m == b.subrange(k as int, b.len() as int),
{
    let u = unwrapped(b);
    let k0: nat = if u == b {
        0
    } else if b.len() >= VENDOR_HEADER_LEN {
        VENDOR_HEADER_LEN as nat
    } else {
        b.len()
    };
    assert(u =~= b.subrange(k0 as int, b.len() as int));
    if m == u {
        k0
    } else {
        let t = embedded_tiff_start(u)->0;
        assert(m =~= b.subrange((k0 + t) as int, b.len() as int));
        k0 + t
    }
}

/// A JPEG found in the sniffed buffer is a JPEG of the input.
proof fn lemma_part_of_sniffed(b: Seq<u8>, m: Seq<u8>, s: Seq<u8>)
    requires
        sniff_candidate(b, m),
        jpeg_part_of(m, s),
    ensures
        jpeg_part_of(b, s),
{
    let k = lemma_sniffed_is_suffix(b, m);
    let p = choose|p: (nat, nat)| #![trigger run_bytes(m, p)] p.0 <= p.1 <= m.len() && run_bytes(m, p) == s;
    let q = (p.0 + k, p.1 + k);
    assert(run_bytes(b, q) =~= run_bytes(m, p));
}

} // verus!
