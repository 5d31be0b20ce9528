use shadowpaste::content::{classify, content_from_png, data_uri, decode_data_uri, ClipboardContent, RawImage};

fn red_pixel() -> Vec<u8> {
    vec![255, 0, 0, 255]
}

#[test]
fn text_takes_priority_over_image() {
    let image = RawImage { width: 1, height: 1, bytes: red_pixel() };
    let content = classify(Some("abc".to_string()), Some(image));
    assert_eq!(content, ClipboardContent::Text("abc".to_string()));
}

#[test]
fn snapshot_without_text_or_image_is_empty() {
    assert_eq!(classify(None, None), ClipboardContent::Empty);
}

#[test]
fn snapshot_with_image_only_is_an_image() {
    let image = RawImage { width: 1, height: 1, bytes: red_pixel() };
    let content = classify(None, Some(image));
    assert!(matches!(content, ClipboardContent::Image(_)));
}

#[test]
fn classify_gives_the_same_content_for_the_same_snapshot() {
    let a = classify(None, Some(RawImage { width: 2, height: 1, bytes: vec![1, 2, 3, 4, 5, 6, 7, 8] }));
    let b = classify(None, Some(RawImage { width: 2, height: 1, bytes: vec![1, 2, 3, 4, 5, 6, 7, 8] }));
    assert_eq!(a, b);
    let c = classify(Some("x".to_string()), None);
    let d = classify(Some("x".to_string()), None);
    assert_eq!(c, d);
}

#[test]
fn image_becomes_a_png_data_uri_that_decodes_to_the_pixels() {
    let content = ClipboardContent::from_image(1, 1, &red_pixel());
    let uri = match content {
        ClipboardContent::Image(uri) => uri,
        other => panic!("expected an image, got {:?}", other),
    };
    assert!(uri.starts_with("data:image/png;base64,"));
    let file = decode_data_uri(&uri).expect("the payload is base64");
    assert_eq!(&file[..8], &[0x89, b'P', b'N', b'G', 0x0d, 0x0a, 0x1a, 0x0a]);
    let decoded = image::load_from_memory(&file).expect("the file is a PNG").to_rgba8();
    assert_eq!(decoded.dimensions(), (1, 1));
    assert_eq!(decoded.into_raw(), red_pixel());
}

#[test]
fn image_with_too_few_bytes_is_empty() {
    let content = ClipboardContent::from_image(2, 2, &vec![0u8; 15]);
    assert_eq!(content, ClipboardContent::Empty);
}

#[test]
fn image_with_spare_bytes_uses_the_first_pixels() {
    let exact = ClipboardContent::from_image(1, 1, &vec![9, 8, 7, 6]);
    let spare = ClipboardContent::from_image(1, 1, &vec![9, 8, 7, 6, 5, 4, 3, 2]);
    assert!(matches!(exact, ClipboardContent::Image(_)));
    assert_eq!(exact, spare);
}

#[test]
fn missing_png_is_empty() {
    assert_eq!(content_from_png(None), ClipboardContent::Empty);
}

#[test]
fn png_bytes_are_wrapped_as_base64() {
    let content = content_from_png(Some(b"hello".to_vec()));
    assert_eq!(content, ClipboardContent::Image("data:image/png;base64,aGVsbG8=".to_string()));
}

#[test]
fn data_uri_puts_the_prefix_before_the_payload() {
    assert_eq!(data_uri("QUJD"), "data:image/png;base64,QUJD");
    assert_eq!(data_uri(""), "data:image/png;base64,");
}

#[test]
fn decode_data_uri_reads_the_payload() {
    assert_eq!(decode_data_uri("data:image/png;base64,aGVsbG8="), Some(b"hello".to_vec()));
    assert_eq!(decode_data_uri("data:image/png;base64,"), Some(Vec::new()));
}

#[test]
fn decode_data_uri_without_marker_is_none() {
    assert_eq!(decode_data_uri("aGVsbG8="), None);
    assert_eq!(decode_data_uri(""), None);
    assert_eq!(decode_data_uri("data:image/png;base32,aGVsbG8="), None);
}

#[test]
fn decode_data_uri_with_bad_payload_is_none() {
    assert_eq!(decode_data_uri("data:image/png;base64,***"), None);
    assert_eq!(decode_data_uri("data:image/png;base64,aGVsbG8"), None);
}

#[test]
fn decode_data_uri_cuts_at_the_first_marker() {
    // What follows the first marker holds a second one, which is no base64.
    assert_eq!(decode_data_uri("a;base64,QUJD;base64,QUJD"), None);
    assert_eq!(decode_data_uri(";base64,QUJD"), Some(b"ABC".to_vec()));
}

#[test]
fn contents_are_equal_by_case_and_characters() {
    assert_eq!(ClipboardContent::Empty, ClipboardContent::Empty);
    assert_eq!(ClipboardContent::Text("a".to_string()), ClipboardContent::Text("a".to_string()));
    assert_ne!(ClipboardContent::Text("a".to_string()), ClipboardContent::Text("A".to_string()));
    assert_ne!(ClipboardContent::Text("a".to_string()), ClipboardContent::Image("a".to_string()));
    assert_ne!(ClipboardContent::Text(String::new()), ClipboardContent::Empty);
    let c = ClipboardContent::Image("data:image/png;base64,QUJD".to_string());
    assert_eq!(c.clone(), c);
}
