use capture_pipeline::keys::{
    extract_key_from_url, extract_object_key, file_extension, make_object_key, public_url_for,
    thumbnail_key_for,
};
use capture_pipeline::numfmt::{i64_to_string, u64_to_string};
use capture_pipeline::text::{contains_sub, find_char, find_sub, rfind_char, starts_with_sub};

#[test]
fn substring_search_finds_first_occurrence() {
    assert_eq!(find_sub("hello 503 world 503", "503"), Some(6));
    assert_eq!(find_sub("hello", "world"), None);
    assert!(contains_sub("service overloaded now", "overloaded"));
    assert!(!contains_sub("service ok", "overloaded"));
    assert!(starts_with_sub("https://x", "http"));
    assert!(!starts_with_sub("captures/a", "http"));
}

#[test]
fn char_search_first_and_last() {
    assert_eq!(find_char("a{b{c", '{'), Some(1));
    assert_eq!(rfind_char("a}b}c", '}'), Some(3));
    assert_eq!(find_char("abc", '{'), None);
    assert_eq!(rfind_char("abc", '}'), None);
}

#[test]
fn key_from_url_after_dot_com() {
    let url = "https://crazytrip-captures.s3.amazonaws.com/captures/123/abc.jpg";
    assert_eq!(extract_key_from_url(url), Some("captures/123/abc.jpg".to_string()));
}

#[test]
fn key_from_url_captures_fallback() {
    let url = "https://storage.example.org/captures/123/abc.jpg";
    assert_eq!(extract_key_from_url(url), Some("captures/123/abc.jpg".to_string()));
}

#[test]
fn key_from_url_bare_key_and_reject() {
    assert_eq!(
        extract_key_from_url("captures/123/abc.jpg"),
        Some("captures/123/abc.jpg".to_string())
    );
    assert_eq!(extract_key_from_url("http://no-markers-here/x"), None);
}

#[test]
fn object_key_after_third_slash() {
    assert_eq!(
        extract_object_key("https://bucket.s3.amazonaws.com/captures/123/uuid.jpg"),
        Some("captures/123/uuid.jpg".to_string())
    );
    assert_eq!(extract_object_key("a/b"), None);
}

#[test]
fn file_extension_rules() {
    assert_eq!(file_extension("photo.jpg"), Some("jpg".to_string()));
    assert_eq!(file_extension(".gitignore"), None);
    assert_eq!(file_extension("archive.tar.gz"), Some("gz".to_string()));
    assert_eq!(file_extension("noext"), None);
    assert_eq!(file_extension("dir.x/file"), None);
}

#[test]
fn object_key_built_from_parts() {
    assert_eq!(
        make_object_key(1700000000, "token123", "photo.png"),
        "captures/1700000000/token123.png"
    );
    assert_eq!(make_object_key(5, "t", "noext"), "captures/5/t.jpg");
}

#[test]
fn public_url_and_thumbnail_key() {
    assert_eq!(
        public_url_for("my-bucket", "captures/1/a.jpg"),
        "https://my-bucket.s3.amazonaws.com/captures/1/a.jpg"
    );
    assert_eq!(thumbnail_key_for("abc-123"), "thumbnails/abc-123.jpg");
}

#[test]
fn dot_com_marker_takes_precedence() {
    let url = "https://x.com/captures/1/a.jpg";
    assert_eq!(extract_key_from_url(url), Some("captures/1/a.jpg".to_string()));
}

#[test]
fn decimal_rendering() {
    assert_eq!(u64_to_string(0), "0");
    assert_eq!(u64_to_string(503), "503");
    assert_eq!(u64_to_string(18446744073709551615), "18446744073709551615");
    assert_eq!(i64_to_string(-42), "-42");
    assert_eq!(i64_to_string(7), "7");
    assert_eq!(i64_to_string(i64::MIN), "-9223372036854775808");
}

#[test]
fn object_key_with_negative_timestamp() {
    assert_eq!(make_object_key(-5, "t", "a.gif"), "captures/-5/t.gif");
}
