use webcam_server::{catalog_from_output, listing, parse_catalog, CatalogError, Device};

fn fields(d: &Device) -> (&str, &str, &str) {
    (d.id.as_str(), d.name.as_str(), d.path.as_str())
}

#[test]
fn usb_camera_block_uses_first_path() {
    let text = "USB Camera (usb-0000:01:00.0-1):\n\t/dev/video0\n\t/dev/video1\n\n";
    let devices = parse_catalog(text);
    assert_eq!(devices.len(), 1);
    assert_eq!(fields(&devices[0]), ("usb-0000:01:00.0-1", "USB Camera", "/dev/video0"));
}

#[test]
fn empty_text_gives_empty_catalog() {
    assert!(parse_catalog("").is_empty());
    let lines = listing(&parse_catalog(""));
    assert_eq!(lines, vec!["Listing 0 devices:".to_string()]);
}

#[test]
fn header_only_block_is_skipped() {
    let text = "Cam A (a):\n\t/dev/video0\n\nCam B (b):\n";
    let devices = parse_catalog(text);
    assert_eq!(devices.len(), 1);
    assert_eq!(fields(&devices[0]), ("a", "Cam A", "/dev/video0"));
}

#[test]
fn non_header_block_does_not_stop_parsing() {
    let text = "some banner text\nmore text\n\nCam (c1):\n\t/dev/video4\n";
    let devices = parse_catalog(text);
    assert_eq!(devices.len(), 1);
    assert_eq!(fields(&devices[0]), ("c1", "Cam", "/dev/video4"));
}

#[test]
fn single_line_block_is_skipped() {
    assert!(parse_catalog("Cam (x):").is_empty());
    assert!(parse_catalog("Cam (x):\n\nOther (y):\n").is_empty());
}

#[test]
fn blocks_keep_their_order_and_duplicates() {
    let text = "Second (s):\n\t/dev/video2\n\n\n\nFirst (f):\n\t/dev/video1\n\nAgain (s):\n\t/dev/video9\n\n\n";
    let devices = parse_catalog(text);
    assert_eq!(devices.len(), 3);
    assert_eq!(fields(&devices[0]), ("s", "Second", "/dev/video2"));
    assert_eq!(fields(&devices[1]), ("f", "First", "/dev/video1"));
    assert_eq!(fields(&devices[2]), ("s", "Again", "/dev/video9"));
}

#[test]
fn parsing_twice_gives_the_same_catalog() {
    let text = "Cam (c):\n\t/dev/video0\n\nCam 2 (d):\n\t/dev/video5\n";
    let a: Vec<_> = parse_catalog(text).iter().map(|d| (d.id.clone(), d.name.clone(), d.path.clone())).collect();
    let b: Vec<_> = parse_catalog(text).iter().map(|d| (d.id.clone(), d.name.clone(), d.path.clone())).collect();
    assert_eq!(a, b);
}

#[test]
fn lines_are_trimmed() {
    let text = "  \u{a0}Web Cam (w-1):  \r\n   /dev/video7 \t\r\n \t \r\n";
    let devices = parse_catalog(text);
    assert_eq!(devices.len(), 1);
    assert_eq!(fields(&devices[0]), ("w-1", "Web Cam", "/dev/video7"));
}

#[test]
fn greedy_header_fields() {
    let text = "Cam (front) (id (x)):\n/dev/video3\n";
    let devices = parse_catalog(text);
    assert_eq!(devices.len(), 1);
    assert_eq!(fields(&devices[0]), ("x)", "Cam (front) (id", "/dev/video3"));
}

#[test]
fn header_with_trailing_text_matches() {
    let devices = parse_catalog("Cam (c): extra\n/dev/video1\n");
    assert_eq!(devices.len(), 1);
    assert_eq!(fields(&devices[0]), ("c", "Cam", "/dev/video1"));
}

#[test]
fn header_without_colon_is_noise() {
    assert!(parse_catalog("Cam (c)\n/dev/video1\n").is_empty());
    assert!(parse_catalog("Cam(c):\n/dev/video1\n").is_empty());
}

#[test]
fn output_of_failed_run_is_empty_catalog() {
    let r = catalog_from_output(None);
    assert!(matches!(r, Ok(ref c) if c.is_empty()));
}

#[test]
fn output_is_decoded_and_parsed() {
    let bytes = "Caméra (c\u{e9}):\n/dev/video0\n".as_bytes().to_vec();
    let devices = catalog_from_output(Some(bytes)).unwrap();
    assert_eq!(devices.len(), 1);
    assert_eq!(fields(&devices[0]), ("c\u{e9}", "Caméra", "/dev/video0"));
}

#[test]
fn invalid_utf8_output_is_malformed() {
    let r = catalog_from_output(Some(vec![b'C', 0xff, 0xfe, b'\n']));
    assert!(matches!(r, Err(CatalogError::MalformedOutput)));
}

#[test]
fn listing_reports_count_and_entries() {
    let devices = parse_catalog("USB Camera (usb-1):\n\t/dev/video0\n\nHD (hd):\n\t/dev/video2\n");
    let lines = listing(&devices);
    assert_eq!(
        lines,
        vec![
            "Listing 2 devices:".to_string(),
            "\t- V4L usb-1: (/dev/video0) \"USB Camera\"".to_string(),
            "\t- V4L hd: (/dev/video2) \"HD\"".to_string(),
        ]
    );
}
