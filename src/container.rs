//! Normalising raw buffers and finding the TIFF tree inside a wrapped container.
use vstd::prelude::*;

use crate::jpeg::{largest_jpeg_slice, largest_run, run_bytes};
use crate::types::Orientation;

verus! {

/// Bytes appended to every buffer so that a bit reader may look ahead safely.
pub const PADDING_LEN: usize = 16;

/// Length of the vendor container header stripped from wrapped buffers.
pub const VENDOR_HEADER_LEN: usize = 148;

/// The vendor container magic `FUJI`.
pub open spec fn vendor_magic() -> Seq<u8> {
    seq![0x46u8, 0x55u8, 0x4au8, 0x49u8]
}

/// `pat` occurs in `b` at position `i`.
pub open spec fn matches_at(b: Seq<u8>, i: int, pat: Seq<u8>) -> bool {
    0 <= i && i + pat.len() <= b.len() && b.subrange(i, i + pat.len()) == pat
}

pub open spec fn has_vendor_magic(b: Seq<u8>) -> bool {
    matches_at(b, 0, vendor_magic())
}

/// `b` with the vendor container header taken off when it starts with the
/// vendor magic; a container cut short inside its header has an empty body.
pub open spec fn unwrapped(b: Seq<u8>) -> Seq<u8> {
    if has_vendor_magic(b) {
        if b.len() >= VENDOR_HEADER_LEN {
            b.subrange(VENDOR_HEADER_LEN as int, b.len() as int)
        } else {
            seq![]
        }
    } else {
        b
    }
}

/// `b` followed by the zero padding.
pub open spec fn padded(b: Seq<u8>) -> Seq<u8> {
    b + Seq::new(PADDING_LEN as nat, |i: int| 0u8)
}

/// Whether `pat` occurs in `buffer` at position `i`.
fn bytes_at(buffer: &[u8], i: usize, pat: &[u8]) -> (r: bool)
    ensures
        r == matches_at(buffer@, i as int, pat@),
{
    if i > buffer.len() || buffer.len() - i < pat.len() {
        return false;
    }
    let blen = buffer.len();
    let mut k: usize = 0;
    while k < pat.len()
        invariant
            blen == buffer@.len(),
            i + pat@.len() <= buffer@.len(),
            k <= pat@.len(),
            forall|j: int| 0 <= j < k ==> buffer@[i + j] == pat@[j],
        decreases pat.len() - k,
    {
        if buffer[i + k] != pat[k] {
            assert(buffer@.subrange(i as int, i + pat@.len())[k as int] != pat@[k as int]);
            return false;
        }
        k = k + 1;
    }
    assert(buffer@.subrange(i as int, i + pat@.len()) =~= pat@);
    true
}

fn starts_with_vendor_magic(buffer: &[u8]) -> (r: bool)
    ensures
        r == has_vendor_magic(buffer@),
{
    let magic: [u8; 4] = [0x46, 0x55, 0x4a, 0x49];
    assert(magic@ =~= vendor_magic());
    bytes_at(buffer, 0, magic.as_slice())
}

/// Takes the vendor container header off an owned buffer.
pub fn fuji_buffer_fix(buffer: Vec<u8>) -> (r: Vec<u8>)
    ensures
        r@ == unwrapped(buffer@),
{
    if starts_with_vendor_magic(buffer.as_slice()) {
        let start = if buffer.len() >= VENDOR_HEADER_LEN {
            VENDOR_HEADER_LEN
        } else {
            buffer.len()
        };
        let body = vstd::slice::slice_subrange(buffer.as_slice(), start, buffer.len());
        vstd::slice::slice_to_vec(body)
    } else {
        buffer
    }
}

/// Takes the vendor container header off a borrowed buffer.
pub fn fuji_buffer_slice_fix(buffer: &[u8]) -> (r: &[u8])
    ensures
        r@ == unwrapped(buffer@),
{
    if starts_with_vendor_magic(buffer) {
        let start = if buffer.len() >= VENDOR_HEADER_LEN {
            VENDOR_HEADER_LEN
        } else {
            buffer.len()
        };
        vstd::slice::slice_subrange(buffer, start, buffer.len())
    } else {
        buffer
    }
}

/// Pads a buffer with zeros and then takes any vendor container header off.
pub fn prepare_buffer(buffer: Vec<u8>) -> (r: Vec<u8>)
    ensures
        r@ == unwrapped(padded(buffer@)),
{
    let mut buffer = buffer;
    let ghost orig = buffer@;
    let mut k: usize = 0;
    while k < PADDING_LEN
        invariant
            k <= PADDING_LEN,
            buffer@ == orig + Seq::new(k as nat, |i: int| 0u8),
        decreases PADDING_LEN - k,
    {
        buffer.push(0u8);
        k = k + 1;
        assert(buffer@ =~= orig + Seq::new(k as nat, |i: int| 0u8));
    }
    fuji_buffer_fix(buffer)
}

/// Unwrapping a buffer that starts with the vendor magic takes exactly the
/// header off, and unwrapping the result again changes nothing unless the body
/// itself starts with the magic.
pub proof fn lemma_unwrap_strips_header(b: Seq<u8>)
    requires
        has_vendor_magic(b),
        b.len() >= VENDOR_HEADER_LEN,
    ensures
        unwrapped(b).len() == b.len() - VENDOR_HEADER_LEN,
        unwrapped(b) == b.subrange(VENDOR_HEADER_LEN as int, b.len() as int),
        !has_vendor_magic(unwrapped(b)) ==> unwrapped(unwrapped(b)) == unwrapped(b),
{
}

/// The box-type signature `ftypcrx ` at offset 4 of a box-based container.
pub open spec fn box_signature() -> Seq<u8> {
    seq![0x66u8, 0x74u8, 0x79u8, 0x70u8, 0x63u8, 0x72u8, 0x78u8, 0x20u8]
}

pub open spec fn is_box_container(b: Seq<u8>) -> bool {
    matches_at(b, 4, box_signature())
}

/// The preview of a box-based container: its largest JPEG slice, upright.
pub open spec fn box_thumbnail(b: Seq<u8>) -> Option<Seq<u8>> {
    if is_box_container(b) && largest_run(b) is Some {
        Some(run_bytes(b, largest_run(b)->0))
    } else {
        None
    }
}

/// For a box-based container, its largest JPEG slice with a horizontal
/// orientation; for any other buffer, nothing.
pub fn try_cr3_thumbnail(buffer: &[u8]) -> (r: Option<(&[u8], Orientation)>)
    ensures
        match box_thumbnail(buffer@) {
            Some(t) => r matches Some(p) && p.0@ == t && p.1 == Orientation::Horizontal,
            None => r is None,
        },
{
    let sig: [u8; 8] = [0x66, 0x74, 0x79, 0x70, 0x63, 0x72, 0x78, 0x20];
    assert(sig@ =~= box_signature());
    if !bytes_at(buffer, 4, sig.as_slice()) {
        return None;
    }
    match largest_jpeg_slice(buffer) {
        Some(jpeg) => Some((jpeg, Orientation::Horizontal)),
        None => None,
    }
}

pub open spec fn tiff_le_header() -> Seq<u8> {
    seq![0x49u8, 0x49u8, 0x2au8, 0x00u8]
}

pub open spec fn tiff_be_header() -> Seq<u8> {
    seq![0x4du8, 0x4du8, 0x00u8, 0x2au8]
}

/// A little- or big-endian TIFF header begins at `i`.
pub open spec fn tiff_at(b: Seq<u8>, i: int) -> bool {
    matches_at(b, i, tiff_le_header()) || matches_at(b, i, tiff_be_header())
}

/// The Exif marker string `Exif\0\0`.
pub open spec fn exif_marker() -> Seq<u8> {
    seq![0x45u8, 0x78u8, 0x69u8, 0x66u8, 0x00u8, 0x00u8]
}

/// The first position at or after `from` where a TIFF header begins.
pub open spec fn first_tiff(b: Seq<u8>, from: nat) -> Option<nat>
    decreases b.len() - from,
{
    if from >= b.len() {
        None
    } else if tiff_at(b, from as int) {
        Some(from)
    } else {
        first_tiff(b, from + 1)
    }
}

/// The first position at or after `from` where the Exif marker begins.
pub open spec fn first_exif(b: Seq<u8>, from: nat) -> Option<nat>
    decreases b.len() - from,
{
    if from >= b.len() {
        None
    } else if matches_at(b, from as int, exif_marker()) {
        Some(from)
    } else {
        first_exif(b, from + 1)
    }
}

/// Where the embedded TIFF tree of `b` starts: the first TIFF header after the
/// first Exif marker, or else the first TIFF header anywhere.
pub open spec fn embedded_tiff_start(b: Seq<u8>) -> Option<nat> {
    match first_exif(b, 0) {
        Some(p) => match first_tiff(b, p + exif_marker().len()) {
            Some(t) => Some(t),
            None => first_tiff(b, 0),
        },
        None => first_tiff(b, 0),
    }
}

/// Whether `bytes` is exactly a TIFF header.
pub fn is_tiff_header(bytes: &[u8]) -> (r: bool)
    ensures
        r == (bytes@ == tiff_le_header() || bytes@ == tiff_be_header()),
{
    if bytes.len() != 4 {
        return false;
    }
    let le: [u8; 4] = [0x49, 0x49, 0x2a, 0x00];
    let be: [u8; 4] = [0x4d, 0x4d, 0x00, 0x2a];
    assert(le@ =~= tiff_le_header());
    assert(be@ =~= tiff_be_header());
    assert(bytes@.subrange(0, 4) =~= bytes@);
    bytes_at(bytes, 0, le.as_slice()) || bytes_at(bytes, 0, be.as_slice())
}

fn find_tiff(buffer: &[u8], from: usize) -> (r: Option<usize>)
    ensures
        match r {
            Some(i) => first_tiff(buffer@, from as nat) == Some(i as nat),
            None => first_tiff(buffer@, from as nat) is None,
        },
{
    let le: [u8; 4] = [0x49, 0x49, 0x2a, 0x00];
    let be: [u8; 4] = [0x4d, 0x4d, 0x00, 0x2a];
    assert(le@ =~= tiff_le_header());
    assert(be@ =~= tiff_be_header());
    let len = buffer.len();
    let mut i: usize = from;
    while i < len
        invariant
            from <= i,
            len == buffer@.len(),
            le@ == tiff_le_header(),
            be@ == tiff_be_header(),
            first_tiff(buffer@, from as nat) == first_tiff(buffer@, i as nat),
        decreases len - i,
    {
        if bytes_at(buffer, i, le.as_slice()) || bytes_at(buffer, i, be.as_slice()) {
            return Some(i);
        }
        i = i + 1;
    }
    None
}

fn find_exif(buffer: &[u8]) -> (r: Option<usize>)
    ensures
        match r {
            Some(i) => first_exif(buffer@, 0) == Some(i as nat),
            None => first_exif(buffer@, 0) is None,
        },
{
    let marker: [u8; 6] = [0x45, 0x78, 0x69, 0x66, 0x00, 0x00];
    assert(marker@ =~= exif_marker());
    let len = buffer.len();
    let mut i: usize = 0;
    while i < len
        invariant
            len == buffer@.len(),
            marker@ == exif_marker(),
            first_exif(buffer@, 0) == first_exif(buffer@, i as nat),
        decreases len - i,
    {
        if bytes_at(buffer, i, marker.as_slice()) {
            return Some(i);
        }
        i = i + 1;
    }
    None
}

/// The part of `buffer` from its embedded TIFF header on: the first one after
/// the Exif marker when there is such a marker and header, else the first one
/// anywhere.
pub fn canon_cr3_exif_slice(buffer: &[u8]) -> (r: Option<&[u8]>)
    ensures
        match embedded_tiff_start(buffer@) {
            Some(t) => r matches Some(s) && t <= buffer@.len() && s@ == buffer@.subrange(
                t as int,
                buffer@.len() as int,
            ),
            None => r is None,
        },
{
    let mut start = None;
    if let Some(pos) = find_exif(buffer) {
        let len = buffer.len();
        assert(matches_at(buffer@, pos as int, exif_marker())) by {
            lemma_first_exif(buffer@, 0);
        }
        assert(pos + 6 <= len);
        start = find_tiff(buffer, pos + 6);
    }
    if start.is_none() {
        start = find_tiff(buffer, 0);
    }
    match start {
        Some(t) => {
            proof {
                lemma_first_tiff(buffer@, 0);
                if let Some(p) = first_exif(buffer@, 0) {
                    lemma_first_tiff(buffer@, p + 6);
                }
            }
            Some(vstd::slice::slice_subrange(buffer, t, buffer.len()))
        },
        None => None,
    }
}

proof fn lemma_first_exif(b: Seq<u8>, from: nat)
    ensures
        first_exif(b, from) matches Some(i) ==> from <= i && matches_at(b, i as int, exif_marker()),
    decreases b.len() - from,
{
    if from < b.len() && !matches_at(b, from as int, exif_marker()) {
        lemma_first_exif(b, from + 1);
    }
}

proof fn lemma_first_tiff(b: Seq<u8>, from: nat)
    ensures
        first_tiff(b, from) matches Some(i) ==> from <= i < b.len() && tiff_at(b, i as int),
    decreases b.len() - from,
{
    if from < b.len() && !tiff_at(b, from as int) {
        lemma_first_tiff(b, from + 1);
    }
}

} // verus!
