use quickraw::jpeg::{
    find_display_jpeg_slice, is_display_jpeg, is_valid_jpeg, largest_jpeg_run, largest_jpeg_slice,
};

fn plain_jpeg(len: usize) -> Vec<u8> {
    let mut v = vec![0xff, 0xd8, 0xff, 0xdb];
    while v.len() < len - 2 {
        v.push(0x11);
    }
    v.push(0xff);
    v.push(0xd9);
    v
}

fn jfif_jpeg(len: usize) -> Vec<u8> {
    let mut v = vec![0xff, 0xd8, 0xff, 0xe0, b'J', b'F', b'I', b'F', 0x00];
    while v.len() < len - 2 {
        v.push(0x22);
    }
    v.push(0xff);
    v.push(0xd9);
    v
}

#[test]
fn minimal_run_of_ten_bytes() {
    let buf = vec![0xff, 0xd8, 0xff, 0xd8, 0x00, 0x00, 0x00, 0x00, 0xff, 0xd9];
    assert_eq!(largest_jpeg_slice(&buf), Some(&buf[..]));
    assert_eq!(largest_jpeg_run(&buf), Some((0, 10)));
}

#[test]
fn larger_of_two_runs_wins() {
    let mut buf = vec![0u8; 7];
    buf.extend(plain_jpeg(50));
    buf.extend(vec![0u8; 13]);
    let start = buf.len();
    buf.extend(plain_jpeg(200));
    buf.extend(vec![0u8; 5]);
    assert_eq!(largest_jpeg_run(&buf), Some((start, start + 200)));
    let s = largest_jpeg_slice(&buf).unwrap();
    assert_eq!(s.len(), 200);
    assert_eq!(&s[..3], &[0xff, 0xd8, 0xff]);
    assert_eq!(&s[s.len() - 2..], &[0xff, 0xd9]);
}

#[test]
fn earlier_run_wins_a_tie() {
    let mut buf = plain_jpeg(30);
    buf.extend(plain_jpeg(30));
    assert_eq!(largest_jpeg_run(&buf), Some((0, 30)));
}

#[test]
fn run_ends_at_last_end_marker() {
    let buf = vec![0xff, 0xd8, 0xff, 0x01, 0xff, 0xd9, 0x02, 0xff, 0xd9];
    assert_eq!(largest_jpeg_run(&buf), Some((0, 9)));
    let buf = vec![0xff, 0xd8, 0xff, 0xff, 0xd9, 0x00, 0xff, 0xd9];
    assert_eq!(largest_jpeg_slice(&buf), Some(&buf[..]));
}

#[test]
fn run_stops_before_next_start_marker() {
    let buf = vec![
        0xff, 0xd8, 0xff, 0x01, 0xff, 0xd9, 0x02, 0xff, 0xd9, 0xff, 0xd8, 0xff, 0x03, 0xff, 0xd9,
    ];
    assert_eq!(largest_jpeg_run(&buf), Some((0, 9)));
    let skipped = vec![0xff, 0xd8, 0xff, 0x01, 0xff, 0xd8, 0xff, 0x02, 0x03, 0xff, 0xd9];
    assert_eq!(largest_jpeg_run(&skipped), Some((4, 11)));
}

#[test]
fn no_run_without_end_marker() {
    let buf = vec![0xff, 0xd8, 0xff, 0x01, 0x02, 0x03];
    assert_eq!(largest_jpeg_slice(&buf), None);
    assert_eq!(largest_jpeg_slice(&[]), None);
}

#[test]
fn validity_needs_header_and_end_marker() {
    assert!(is_valid_jpeg(&[0xff, 0xd8, 0xff, 0xd9]));
    assert!(is_valid_jpeg(&[0xff, 0xd8, 0x00, 0xff, 0xd9, 0x00]));
    assert!(!is_valid_jpeg(&[0xff, 0xd8, 0xd9]));
    assert!(!is_valid_jpeg(&[0xff, 0xd7, 0xff, 0xd9]));
    assert!(!is_valid_jpeg(&[0xff, 0xd8, 0x00, 0x00, 0x00]));
}

#[test]
fn jfif_marker_makes_display_jpeg() {
    assert!(is_display_jpeg(&jfif_jpeg(100)));
    assert!(!is_display_jpeg(&plain_jpeg(100)));
    let mut exif = vec![0xff, 0xd8, 0xff, 0xe1, b'E', b'x', b'i', b'f'];
    exif.extend(vec![0u8; 20]);
    exif.extend([0xff, 0xd9]);
    assert!(is_display_jpeg(&exif));
}

#[test]
fn marker_window_is_eighty_bytes() {
    let mut inside = plain_jpeg(200);
    inside[76..80].copy_from_slice(&[0xff, 0xe0, b'J', b'F']);
    assert!(is_display_jpeg(&inside));
    let mut outside = plain_jpeg(200);
    outside[77..81].copy_from_slice(&[0xff, 0xe0, b'J', b'F']);
    assert!(!is_display_jpeg(&outside));
}

#[test]
fn display_scan_prefers_largest_displayable() {
    let mut buf = plain_jpeg(40);
    buf.extend(jfif_jpeg(120));
    let s = find_display_jpeg_slice(&buf).unwrap();
    assert_eq!(s, &buf[40..160]);
}

#[test]
fn display_scan_takes_largest_displayable_not_largest() {
    let mut buf = vec![0xff, 0xd8, 0xff, 0x00, 0x00, 0x00, 0x00, 0xff, 0xd9];
    buf.extend([0xff, 0xd8, 0xff, 0xe0, b'J', b'F', 0xff, 0xd9]);
    assert_eq!(find_display_jpeg_slice(&buf), Some(&buf[9..17]));
}

#[test]
fn display_scan_falls_back_to_first_valid() {
    let mut buf = jfif_jpeg(40);
    buf.extend(plain_jpeg(120));
    let s = find_display_jpeg_slice(&buf).unwrap();
    assert_eq!(s, &buf[0..40]);
    let plain = plain_jpeg(60);
    assert_eq!(find_display_jpeg_slice(&plain), Some(&plain[..]));
    assert_eq!(find_display_jpeg_slice(&[1, 2, 3]), None);
}
