//! The metadata parser this library builds on, quickexif, as Verus sees it.
//! Its parsed results are opaque here: the library reads fields out of them
//! through the getters below and reasons about the plain values it gets back.
use vstd::prelude::*;

use quickexif::parser::Error as ParseError;
use quickexif::rule::ParsingRule;
use quickexif::value::Value;
use quickexif::ParsedInfo;

verus! {

#[verifier::external_type_specification]
#[verifier::external_body]
pub struct ExParsedInfo(quickexif::ParsedInfo);

#[verifier::external_type_specification]
#[verifier::external_body]
pub struct ExParsingRule(quickexif::rule::ParsingRule);

#[verifier::external_type_specification]
#[verifier::external_body]
pub struct ExParseError(quickexif::parser::Error);

/// Relies on quickexif's `ParsingRule::Tiff`: a rule that reads the TIFF tree at
/// the current position with `rules`.
#[verifier::external_body]
fn rule_tiff(rules: Vec<ParsingRule>) -> ParsingRule {
    ParsingRule::Tiff(rules)
}

/// Relies on quickexif's `ParsingRule::JumpNext`: a rule that applies `rules` to
/// the next image file directory.
#[verifier::external_body]
fn rule_next_ifd(rules: Vec<ParsingRule>) -> ParsingRule {
    ParsingRule::JumpNext(rules)
}

/// Relies on quickexif's `ParsingRule::Jump`: a rule that follows the offset held
/// by `tag` and applies `rules` at that offset; an optional tag may be absent.
#[verifier::external_body]
fn rule_jump(tag: u16, is_optional: bool, rules: Vec<ParsingRule>) -> ParsingRule {
    ParsingRule::Jump { tag, is_optional, rules }
}

/// Relies on quickexif's `ParsingRule::OffsetItem` with a `Value::Str`: a rule
/// that stores the text `offset` bytes past the current position under `name`.
#[verifier::external_body]
fn rule_text(offset: usize, name: &'static str) -> ParsingRule {
    ParsingRule::OffsetItem { offset, name, t: Value::Str(String::new()) }
}

/// Relies on quickexif's `ParsingRule::TagItem`: a rule that stores the value of
/// `tag` under `name`, read as 16 bits when `short`, and its count under `len`
/// when given; an optional tag may be absent.
#[verifier::external_body]
fn rule_tag(
    tag: u16,
    name: &'static str,
    len: Option<&'static str>,
    is_optional: bool,
    short: bool,
) -> ParsingRule {
    ParsingRule::TagItem { tag, name, len, is_optional, is_value_u16: short }
}

/// The dispatch rule: make and model from the first directory, orientation,
/// and the preview's offset and length from the next directory. Only
/// `basic_info_rule` makes one, so a parse under it is a parse under that rule.
pub struct BasicRule {
    rule: ParsingRule,
}

/// The dispatch rule. Every tag in it is optional, so that a missing make or
/// model is reported as such rather than as a parse failure.
pub fn basic_info_rule() -> BasicRule {
    let rule = rule_tiff(
        vec![
            rule_jump(0x010f, true, vec![rule_text(0, "make")]),
            rule_jump(0x0110, true, vec![rule_text(0, "model")]),
            rule_tag(0x0112, "orientation", None, true, true),
            rule_next_ifd(
                vec![
                    rule_tag(0x0201, "thumbnail", None, true, false),
                    rule_tag(0x0202, "thumbnail_len", None, true, false),
                ],
            ),
        ],
    );
    BasicRule { rule }
}

/// Whether quickexif parses `b` under the dispatch rule.
pub uninterp spec fn basic_parse_ok(b: Seq<u8>) -> bool;

/// The text fields that quickexif reads from `b` under the dispatch rule.
pub uninterp spec fn basic_texts(b: Seq<u8>) -> Map<Seq<char>, Seq<char>>;

/// The numeric fields that quickexif reads from `b` under the dispatch rule, as
/// `ParsedInfo::usize` gives them.
pub uninterp spec fn basic_numbers(b: Seq<u8>) -> Map<Seq<char>, usize>;

/// The numeric fields that quickexif reads from `b` under the dispatch rule, as
/// `ParsedInfo::u16` gives them.
pub uninterp spec fn basic_shorts(b: Seq<u8>) -> Map<Seq<char>, u16>;

/// The text fields that a parsed result holds.
pub uninterp spec fn text_fields(info: ParsedInfo) -> Map<Seq<char>, Seq<char>>;

/// The numeric fields that a parsed result holds, as `ParsedInfo::usize` gives them.
pub uninterp spec fn number_fields(info: ParsedInfo) -> Map<Seq<char>, usize>;

/// The numeric fields that a parsed result holds, as `ParsedInfo::u16` gives them.
pub uninterp spec fn short_fields(info: ParsedInfo) -> Map<Seq<char>, u16>;

/// The value stored under `k`, if any.
pub open spec fn lookup<V>(m: Map<Seq<char>, V>, k: Seq<char>) -> Option<V> {
    if m.contains_key(k) {
        Some(m[k])
    } else {
        None
    }
}

/// `info` holds what quickexif reads from `b` under the dispatch rule.
pub open spec fn info_of(info: ParsedInfo, b: Seq<u8>) -> bool {
    &&& text_fields(info) == basic_texts(b)
    &&& number_fields(info) == basic_numbers(b)
    &&& short_fields(info) == basic_shorts(b)
}

/// Shortest buffer that quickexif reads without running past its end: it looks
/// at a JPEG marker and skips a twelve-byte JPEG prefix when there is one.
pub const MIN_METADATA_LEN: usize = 12;

/// The 16-bit value at `i`, little- or big-endian.
pub open spec fn rd16(t: Seq<u8>, i: int, le: bool) -> int {
    if le {
        t[i] + 256 * t[i + 1]
    } else {
        256 * t[i] + t[i + 1]
    }
}

/// The 32-bit value at `i`, little- or big-endian.
pub open spec fn rd32(t: Seq<u8>, i: int, le: bool) -> int {
    if le {
        rd16(t, i, true) + 65536 * rd16(t, i + 2, true)
    } else {
        65536 * rd16(t, i, false) + rd16(t, i + 2, false)
    }
}

/// The bytes that hold the TIFF tree: past the twelve-byte prefix of a JPEG.
pub open spec fn tree_view(b: Seq<u8>) -> Seq<u8> {
    if b.len() >= 12 && b[0] == 0xff && b[1] == 0xd8 {
        b.subrange(12, b.len() as int)
    } else {
        b
    }
}

pub open spec fn has_byte_order(t: Seq<u8>) -> bool {
    t.len() >= 2 && ((t[0] == 0x49 && t[1] == 0x49) || (t[0] == 0x4d && t[1] == 0x4d))
}

/// A directory at `d` with `n` entries fits in `t`, with its next-directory
/// offset.
pub open spec fn dir_fits(t: Seq<u8>, d: int, le: bool) -> bool {
    d + 2 <= t.len() && d + 2 + 12 * rd16(t, d, le) + 4 <= t.len()
}

/// Every complete entry of the directory at `d` that holds the make or model
/// points at or before the end of `t`.
pub open spec fn text_entries_in_bounds(t: Seq<u8>, d: int, le: bool) -> bool {
    forall|k: int|
        0 <= k < rd16(t, d, le) && d + 2 + 12 * (k + 1) <= t.len() && (rd16(t, d + 2 + 12 * k, le)
            == 0x010f || rd16(t, d + 2 + 12 * k, le) == 0x0110) ==> #[trigger] rd32(
            t,
            d + 2 + 12 * k + 8,
            le,
        ) <= t.len()
}

/// Every offset that quickexif follows under the dispatch rule lies within
/// the buffer: the first directory, the make and model texts, and the next
/// directory. A tree with an unknown byte order is refused by quickexif
/// before any of them is read.
pub open spec fn basic_tree_in_bounds(b: Seq<u8>) -> bool {
    let t = tree_view(b);
    let le = t[0] == 0x49;
    &&& b.len() >= MIN_METADATA_LEN
    &&& t.len() >= 2
    &&& has_byte_order(t) ==> {
        &&& t.len() >= 8
        &&& dir_fits(t, rd32(t, 4, le), le)
        &&& text_entries_in_bounds(t, rd32(t, 4, le), le)
        &&& dir_fits(
            t,
            rd32(t, rd32(t, 4, le) + 2 + 12 * rd16(t, rd32(t, 4, le), le), le),
            le,
        )
    }
}

fn read16(t: &[u8], i: usize, le: bool) -> (r: u64)
    requires
        i + 2 <= t@.len(),
    ensures
        r == rd16(t@, i as int, le),
        r < 65536,
{
    let a = t[i] as u64;
    let b = t[i + 1] as u64;
    if le {
        a + 256 * b
    } else {
        256 * a + b
    }
}

fn read32(t: &[u8], i: usize, le: bool) -> (r: u64)
    requires
        i + 4 <= t@.len(),
    ensures
        r == rd32(t@, i as int, le),
        r < 0x1_0000_0000,
{
    let len = t.len();
    let lo = read16(t, i, le);
    let hi = read16(t, i + 2, le);
    if le {
        lo + 65536 * hi
    } else {
        65536 * lo + hi
    }
}

fn dir_fits_exec(t: &[u8], d: u64, le: bool) -> (r: bool)
    requires
        d < 0x1_0000_0000,
    ensures
        r == dir_fits(t@, d as int, le),
{
    let len = t.len() as u64;
    if d + 2 > len {
        return false;
    }
    let n = read16(t, d as usize, le);
    d + 2 + 12 * n + 4 <= len
}

fn text_entries_in_bounds_exec(t: &[u8], d: u64, le: bool) -> (r: bool)
    requires
        d + 2 <= t@.len(),
        d < 0x1_0000_0000,
    ensures
        r == text_entries_in_bounds(t@, d as int, le),
{
    let ulen = t.len();
    let len = ulen as u64;
    let n = read16(t, d as usize, le);
    let mut k: u64 = 0;
    while k < n
        invariant
            len == t@.len(),
            len <= usize::MAX,
            d + 2 <= len,
            d < 0x1_0000_0000,
            n == rd16(t@, d as int, le),
            n < 65536,
            k <= n,
            forall|j: int|
                0 <= j < k && d + 2 + 12 * (j + 1) <= t@.len() && (rd16(t@, d + 2 + 12 * j, le)
                    == 0x010f || rd16(t@, d + 2 + 12 * j, le) == 0x0110) ==> #[trigger] rd32(
                    t@,
                    d + 2 + 12 * j + 8,
                    le,
                ) <= t@.len(),
        decreases n - k,
    {
        let at = d + 2 + 12 * k;
        if at + 12 <= len {
            let tag = read16(t, at as usize, le);
            if tag == 0x010f || tag == 0x0110 {
                let v = read32(t, (at + 8) as usize, le);
                if v > len {
                    return false;
                }
            }
        }
        k = k + 1;
    }
    true
}

/// Whether every offset that quickexif follows under the dispatch rule lies
/// within `buffer`.
pub fn is_basic_tree_in_bounds(buffer: &[u8]) -> (r: bool)
    ensures
        r == basic_tree_in_bounds(buffer@),
{
    if buffer.len() < MIN_METADATA_LEN {
        return false;
    }
    let t = if buffer[0] == 0xff && buffer[1] == 0xd8 {
        vstd::slice::slice_subrange(buffer, 12, buffer.len())
    } else {
        buffer
    };
    assert(t@ == tree_view(buffer@));
    if t.len() < 2 {
        return false;
    }
    let ordered = (t[0] == 0x49 && t[1] == 0x49) || (t[0] == 0x4d && t[1] == 0x4d);
    if !ordered {
        return true;
    }
    let le = t[0] == 0x49;
    if t.len() < 8 {
        return false;
    }
    let d = read32(t, 4, le);
    if !dir_fits_exec(t, d, le) {
        return false;
    }
    if !text_entries_in_bounds_exec(t, d, le) {
        return false;
    }
    let n = read16(t, d as usize, le);
    let d1 = read32(t, (d + 2 + 12 * n) as usize, le);
    dir_fits_exec(t, d1, le)
}

/// Relies on `quickexif::parse`: reads the fields of the dispatch rule out of
/// the TIFF tree at the start of `buffer`, or fails with its parser error; the
/// outcome depends on the bytes alone. Under that rule quickexif reads the
/// buffer only at the offsets that `basic_tree_in_bounds` checks, so it does
/// not panic there.
#[verifier::external_body]
pub(crate) fn parse_exif(buffer: &[u8], rule: &BasicRule) -> (r: Result<ParsedInfo, ParseError>)
    requires
        basic_tree_in_bounds(buffer@),
    ensures
        r is Ok <==> basic_parse_ok(buffer@),
        r matches Ok(info) ==> text_fields(info) == basic_texts(buffer@) && number_fields(info)
            == basic_numbers(buffer@) && short_fields(info) == basic_shorts(buffer@),
{
    quickexif::parse(buffer, &rule.rule)
}

/// Relies on quickexif's `ParsedInfo::str`: the text stored under `name`, if a
/// text is stored there.
#[verifier::external_body]
pub(crate) fn info_text(info: &ParsedInfo, name: &str) -> (r: Option<String>)
    ensures
        match r {
            Some(t) => lookup(text_fields(*info), name@) == Some(t@),
            None => lookup(text_fields(*info), name@) is None,
        },
{
    info.str(name).ok().map(|s| s.to_owned())
}

/// Relies on quickexif's `ParsedInfo::usize`: the number stored under `name`, if
/// a number is stored there.
#[verifier::external_body]
pub(crate) fn info_usize(info: &ParsedInfo, name: &str) -> (r: Option<usize>)
    ensures
        r == lookup(number_fields(*info), name@),
{
    info.usize(name).ok()
}

/// Relies on quickexif's `ParsedInfo::u16`: the number stored under `name`,
/// truncated to 16 bits, if a number is stored there.
#[verifier::external_body]
pub(crate) fn info_u16(info: &ParsedInfo, name: &str) -> (r: Option<u16>)
    ensures
        r == lookup(short_fields(*info), name@),
{
    info.u16(name).ok()
}

} // verus!
