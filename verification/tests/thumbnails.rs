use base64::Engine;
use capture_pipeline::thumb::{generate_thumbnail, ThumbnailError};

const ONE_PIXEL_PNG_B64: &str =
    "iVBORw0KGgoAAAANSUhEUgAAAAEAAAABCAYAAAAfFcSJAAAADUlEQVR42mNkYPhfDwAChwGA60e6kgAAAABJRU5ErkJggg==";

#[test]
fn thumbnail_is_reencoded_as_jpeg() {
    let png = base64::engine::general_purpose::STANDARD
        .decode(ONE_PIXEL_PNG_B64)
        .unwrap();
    let jpeg = generate_thumbnail(&png, 200, 200).unwrap();
    assert!(jpeg.len() > 2);
    assert_eq!(&jpeg[0..2], &[0xFF, 0xD8]);
}

#[test]
fn undecodable_bytes_fail_at_the_decode_step() {
    let garbage = vec![0u8, 1, 2, 3, 4, 5];
    match generate_thumbnail(&garbage, 200, 200) {
        Err(ThumbnailError::Decode(msg)) => assert!(!msg.is_empty()),
        other => panic!("expected a decode failure, got {:?}", other.map(|v| v.len())),
    }
}

#[test]
fn thumbnail_error_messages_name_the_step() {
    let e = ThumbnailError::Decode("bad magic".to_string());
    assert_eq!(e.message(), "thumbnail decode failed: bad magic");
    let e = ThumbnailError::Encode("no space".to_string());
    assert_eq!(e.message(), "thumbnail encode failed: no space");
}
