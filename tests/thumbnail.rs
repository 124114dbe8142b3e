use quickraw::maker::{
    jpeg_from_exif, orientation_from_exif, select_decoder, select_maker, thumbnail_from_fields,
    Maker,
};
use quickraw::{get_thumbnail, CFAPattern, DecodingError, Export, Orientation, RawFileReadingError};

fn plain_jpeg(len: usize) -> Vec<u8> {
    let mut v = vec![0xff, 0xd8, 0xff, 0xdb];
    while v.len() < len - 2 {
        v.push(0x11);
    }
    v.extend([0xff, 0xd9]);
    v
}

fn jfif_jpeg(len: usize) -> Vec<u8> {
    let mut v = vec![0xff, 0xd8, 0xff, 0xe0, b'J', b'F', b'I', b'F', 0x00];
    while v.len() < len - 2 {
        v.push(0x22);
    }
    v.extend([0xff, 0xd9]);
    v
}

fn entry(out: &mut Vec<u8>, tag: u16, kind: u16, count: u32, value: u32) {
    out.extend(tag.to_le_bytes());
    out.extend(kind.to_le_bytes());
    out.extend(count.to_le_bytes());
    out.extend(value.to_le_bytes());
}

/// A little-endian TIFF tree of `total` bytes with the given make, model and
/// orientation in its first directory and the preview location in the second.
fn tiff(
    make: Option<&str>,
    model: Option<&str>,
    orientation: u16,
    thumb: Option<(u32, u32)>,
    total: usize,
) -> Vec<u8> {
    let n0 = 1 + make.is_some() as usize + model.is_some() as usize;
    let n1 = if thumb.is_some() { 2 } else { 0 };
    let ifd1 = 8 + 2 + 12 * n0 + 4;
    let strings = ifd1 + 2 + 12 * n1 + 4;
    let mut text = Vec::new();
    let mut out = vec![0x49, 0x49, 0x2a, 0x00, 8, 0, 0, 0];
    out.extend((n0 as u16).to_le_bytes());
    if let Some(m) = make {
        entry(&mut out, 0x010f, 2, m.len() as u32 + 1, (strings + text.len()) as u32);
        text.extend(m.as_bytes());
        text.push(0);
    }
    if let Some(m) = model {
        entry(&mut out, 0x0110, 2, m.len() as u32 + 1, (strings + text.len()) as u32);
        text.extend(m.as_bytes());
        text.push(0);
    }
    entry(&mut out, 0x0112, 3, 1, orientation as u32);
    out.extend((ifd1 as u32).to_le_bytes());
    out.extend((n1 as u16).to_le_bytes());
    if let Some((off, len)) = thumb {
        entry(&mut out, 0x0201, 4, 1, off);
        entry(&mut out, 0x0202, 4, 1, len);
    }
    out.extend(0u32.to_le_bytes());
    out.extend(text);
    assert!(out.len() <= total);
    out.resize(total, 0);
    out
}

fn put(buf: &mut [u8], at: usize, data: &[u8]) {
    buf[at..at + data.len()].copy_from_slice(data);
}

#[test]
fn declared_preview_is_returned_with_orientation() {
    let mut buf = tiff(Some("Canon"), Some("EOS R"), 6, Some((200, 100)), 400);
    put(&mut buf, 200, &jfif_jpeg(100));
    let (s, o) = get_thumbnail(&buf).unwrap();
    assert_eq!(s, &buf[200..300]);
    assert_eq!(o, Orientation::Rotate90);
}

#[test]
fn declared_preview_may_end_at_buffer_end() {
    let mut buf = tiff(Some("Canon"), Some("EOS R"), 1, Some((200, 100)), 300);
    put(&mut buf, 200, &jfif_jpeg(100));
    let (s, o) = get_thumbnail(&buf).unwrap();
    assert_eq!(s, &buf[200..300]);
    assert_eq!(o, Orientation::Horizontal);
    assert_eq!(jpeg_from_exif(&buf, Some(200), Some(100)), Some(&buf[200..300]));
    assert_eq!(jpeg_from_exif(&buf, Some(200), Some(101)), None);
    assert_eq!(jpeg_from_exif(&buf, Some(200), Some(3)), None);
    assert_eq!(jpeg_from_exif(&buf, None, Some(100)), None);
}

#[test]
fn raw_jpeg_at_declared_place_is_passed_over() {
    let mut buf = tiff(Some("Canon"), Some("EOS R"), 1, Some((100, 500)), 1400);
    put(&mut buf, 100, &plain_jpeg(500));
    put(&mut buf, 700, &jfif_jpeg(600));
    let (s, _) = get_thumbnail(&buf).unwrap();
    assert_eq!(s, &buf[700..1300]);
}

#[test]
fn smaller_displayable_jpeg_beats_declared_raw_jpeg() {
    let mut buf = tiff(Some("Canon"), Some("EOS R"), 1, Some((100, 500)), 1000);
    put(&mut buf, 100, &plain_jpeg(500));
    put(&mut buf, 700, &jfif_jpeg(150));
    let (s, _) = get_thumbnail(&buf).unwrap();
    assert_eq!(s, &buf[700..850]);
}

#[test]
fn scan_fallback_when_declared_preview_overruns() {
    let mut buf = tiff(Some("Canon"), Some("EOS R"), 3, Some((200, 900)), 400);
    put(&mut buf, 220, &jfif_jpeg(100));
    let (s, o) = get_thumbnail(&buf).unwrap();
    assert_eq!(s, &buf[220..320]);
    assert_eq!(o, Orientation::Rotate180);
}

#[test]
fn missing_preview_names_thumbnail_field() {
    let buf = tiff(Some("Canon"), Some("EOS R"), 1, None, 200);
    match get_thumbnail(&buf) {
        Err(RawFileReadingError::DecodingError(DecodingError::FieldNotFound(n))) => {
            assert_eq!(n, "thumbnail")
        }
        other => panic!("unexpected {:?}", other.map(|(s, _)| s.len())),
    }
}

#[test]
fn missing_model_is_its_own_error() {
    let mut buf = tiff(Some("Canon"), None, 1, Some((200, 100)), 400);
    put(&mut buf, 200, &jfif_jpeg(100));
    assert!(matches!(get_thumbnail(&buf), Err(RawFileReadingError::CannotReadModel)));
}

#[test]
fn missing_make_is_its_own_error() {
    let buf = tiff(None, Some("EOS R"), 1, Some((200, 100)), 400);
    assert!(matches!(get_thumbnail(&buf), Err(RawFileReadingError::CannotReadMake)));
}

#[test]
fn unknown_maker_is_refused() {
    let buf = tiff(Some("Nikon"), Some("Z6"), 1, Some((200, 100)), 400);
    match get_thumbnail(&buf) {
        Err(RawFileReadingError::MakerIsNotSupportedYet(m)) => assert_eq!(m, "Nikon"),
        _ => panic!("expected an unsupported maker"),
    }
}

#[test]
fn selection_reads_make_before_model() {
    let canon = Some("Canon".to_string());
    let model = Some("EOS R".to_string());
    assert!(matches!(select_maker(&None, &None), Err(RawFileReadingError::CannotReadMake)));
    assert!(matches!(select_maker(&canon, &None), Err(RawFileReadingError::CannotReadModel)));
    assert!(matches!(select_maker(&canon, &model), Ok(Maker::Canon)));
    assert!(matches!(select_maker(&Some("CANON".to_string()), &model), Ok(Maker::Canon)));
    assert!(matches!(select_maker(&Some("cAnOn".to_string()), &None), Err(RawFileReadingError::CannotReadModel)));
    assert!(matches!(
        select_maker(&Some("canon x".to_string()), &model),
        Err(RawFileReadingError::MakerIsNotSupportedYet(_))
    ));
}

#[test]
fn exif_orientation_values() {
    assert_eq!(orientation_from_exif(Some(1)), Orientation::Horizontal);
    assert_eq!(orientation_from_exif(Some(3)), Orientation::Rotate180);
    assert_eq!(orientation_from_exif(Some(6)), Orientation::Rotate90);
    assert_eq!(orientation_from_exif(Some(8)), Orientation::Rotate270);
    assert_eq!(orientation_from_exif(None), Orientation::Horizontal);
    assert_eq!(Orientation::Rotate270.degrees(), 270);
}

#[test]
fn general_decoder_capabilities() {
    let buf = tiff(Some("Canon"), Some("EOS R"), 1, None, 200);
    let info = quickraw::decode::parse_basic_info(&buf).ok().unwrap();
    let decoder = select_decoder(info).ok().unwrap();
    assert!(decoder.get_crop().is_none());
    assert_eq!(decoder.get_cfa_pattern().unwrap(), CFAPattern::RGGB);
    assert!(matches!(decoder.decode_with_preprocess(&buf), Err(DecodingError::NotImplemented(_))));
    assert_eq!(decoder.get_info().str("make").unwrap(), "Canon");
}

#[test]
fn fields_give_scanned_preview_or_error() {
    let mut buf = vec![0u8; 10];
    buf.extend(jfif_jpeg(30));
    assert_eq!(thumbnail_from_fields(&buf, None, None).unwrap(), &buf[10..40]);
    match thumbnail_from_fields(&[0u8; 8], Some(0), Some(4)) {
        Err(DecodingError::FieldNotFound(n)) => assert_eq!(n, "thumbnail"),
        _ => panic!("expected a missing thumbnail"),
    }
}

#[test]
fn no_metadata_falls_back_to_largest_jpeg() {
    let mut buf = vec![0u8; 20];
    buf.extend(plain_jpeg(30));
    buf.extend(plain_jpeg(60));
    let (s, o) = get_thumbnail(&buf).unwrap();
    assert_eq!(s, &buf[50..110]);
    assert_eq!(o, Orientation::Horizontal);
}

#[test]
fn nothing_found_returns_metadata_error() {
    assert!(matches!(get_thumbnail(&[]), Err(RawFileReadingError::MetadataOutOfBounds)));
    assert!(matches!(
        get_thumbnail(&[0u8; 64]),
        Err(RawFileReadingError::ExifParseError(_))
    ));
}

#[test]
fn box_container_skips_metadata() {
    let mut buf = vec![0, 0, 0, 0x18];
    buf.extend(b"ftypcrx ");
    buf.extend(jfif_jpeg(40));
    let (s, o) = get_thumbnail(&buf).unwrap();
    assert_eq!(s, &buf[12..52]);
    assert_eq!(o, Orientation::Horizontal);
}

#[test]
fn resolving_twice_gives_same_bytes() {
    let mut buf = tiff(Some("Canon"), Some("EOS R"), 8, Some((100, 500)), 1400);
    put(&mut buf, 100, &plain_jpeg(500));
    put(&mut buf, 700, &jfif_jpeg(600));
    let first = get_thumbnail(&buf).unwrap();
    let second = get_thumbnail(&buf).unwrap();
    assert_eq!(first.0, second.0);
    assert_eq!(first.1, second.1);
}

#[test]
fn export_copies_preview() {
    let mut buf = tiff(Some("Canon"), Some("EOS R"), 1, Some((200, 100)), 400);
    put(&mut buf, 200, &jfif_jpeg(100));
    let (data, o) = Export::export_thumbnail_data(&buf).unwrap();
    assert_eq!(data, buf[200..300].to_vec());
    assert_eq!(o, Orientation::Horizontal);
}

#[test]
fn embedded_tree_offsets_are_relative_to_it() {
    let mut tree = tiff(Some("Canon"), Some("EOS R5"), 8, Some((150, 60)), 300);
    put(&mut tree, 150, &jfif_jpeg(60));
    let mut buf = vec![0x01u8; 50];
    buf.extend(b"Exif\0\0");
    let start = buf.len();
    buf.extend(&tree);
    let (s, o) = get_thumbnail(&buf).unwrap();
    assert_eq!(s, &buf[start + 150..start + 210]);
    assert_eq!(o, Orientation::Rotate270);
    let (_, sniffed) = quickraw::decode::parse_basic_info_with_fallback(&buf).unwrap();
    assert_eq!(sniffed, &buf[start..]);
}

#[test]
fn vendor_wrapped_tree_is_read_after_header() {
    let mut tree = tiff(Some("Canon"), Some("EOS R"), 1, Some((200, 100)), 400);
    put(&mut tree, 200, &jfif_jpeg(100));
    let mut buf = b"FUJI".to_vec();
    buf.extend(vec![0u8; 144]);
    buf.extend(&tree);
    let (s, _) = get_thumbnail(&buf).unwrap();
    assert_eq!(s, &buf[148 + 200..148 + 300]);
}

#[test]
fn exif_info_and_short_buffers() {
    let buf = tiff(Some("Canon"), Some("EOS R"), 6, None, 200);
    let info = quickraw::decode::get_exif_info(&buf).ok().unwrap();
    assert_eq!(info.str("model").unwrap(), "EOS R");
    assert_eq!(info.u16("orientation").unwrap(), 6);
    assert!(matches!(
        quickraw::decode::parse_basic_info(&buf[..11]),
        Err(RawFileReadingError::MetadataOutOfBounds)
    ));
    let nikon = tiff(Some("Nikon"), Some("Z6"), 1, None, 200);
    assert!(matches!(
        quickraw::decode::get_exif_info(&nikon),
        Err(RawFileReadingError::MakerIsNotSupportedYet(_))
    ));
}

#[test]
fn trees_pointing_outside_are_refused_before_parsing() {
    let mut jpeg_prefix = vec![0xff, 0xd8];
    jpeg_prefix.extend([0u8; 10]);
    assert!(matches!(
        quickraw::decode::parse_basic_info(&jpeg_prefix),
        Err(RawFileReadingError::MetadataOutOfBounds)
    ));
    let far = vec![0x49, 0x49, 0x2a, 0x00, 0xff, 0xff, 0xff, 0x00, 0, 0, 0, 0];
    assert!(!quickraw::exif::is_basic_tree_in_bounds(&far));
    assert!(matches!(get_thumbnail(&far), Err(RawFileReadingError::MetadataOutOfBounds)));
    let mut bad_make = tiff(Some("Canon"), Some("EOS R"), 1, None, 200);
    bad_make[18..22].copy_from_slice(&5000u32.to_le_bytes());
    assert!(!quickraw::exif::is_basic_tree_in_bounds(&bad_make));
    let good = tiff(Some("Canon"), Some("EOS R"), 1, None, 200);
    assert!(quickraw::exif::is_basic_tree_in_bounds(&good));
}
