use capture_pipeline::extract::{extract_metadata, normalize_tags};
use capture_pipeline::request::{build_request_body, build_vision_request, build_vision_url, json_escape};
use capture_pipeline::context::ContextInput;
use capture_pipeline::vision::{
    classify_failure, extract_candidate_text, extract_json_window, interpret_vision_response,
    parse_vision_document, FailureKind, VisionError,
};

#[test]
fn transient_markers_classify_transient() {
    assert_eq!(classify_failure("upstream overloaded, try later"), FailureKind::Transient);
    assert_eq!(classify_failure("HTTP 503 from server"), FailureKind::Transient);
    assert_eq!(classify_failure("code=UNAVAILABLE"), FailureKind::Transient);
}

#[test]
fn other_errors_classify_permanent() {
    assert_eq!(classify_failure("400 Bad Request"), FailureKind::Permanent);
    assert_eq!(classify_failure("quota exceeded"), FailureKind::Permanent);
    assert_eq!(classify_failure(""), FailureKind::Permanent);
}

#[test]
fn error_messages_and_kinds() {
    let api = VisionError::Api { status: 503, body: "Service Unavailable".to_string() };
    assert_eq!(api.message(), "Vision API error (503): Service Unavailable");
    assert_eq!(api.kind(), FailureKind::Transient);

    let bad = VisionError::Api { status: 400, body: "Bad Request".to_string() };
    assert_eq!(bad.message(), "Vision API error (400): Bad Request");
    assert_eq!(bad.kind(), FailureKind::Permanent);

    assert_eq!(VisionError::EmptyResponse.kind(), FailureKind::Permanent);
    assert_eq!(VisionError::MalformedResult.kind(), FailureKind::Permanent);
}

#[test]
fn json_window_between_braces() {
    let text = "Here is the result: {\"category\":\"LANDMARK\",\"confidence\":0.9} thanks";
    assert_eq!(
        extract_json_window(text),
        Some("{\"category\":\"LANDMARK\",\"confidence\":0.9}".to_string())
    );
    assert_eq!(extract_json_window("no braces at all"), None);
    assert_eq!(extract_json_window("}{"), None);
}

#[test]
fn round_trip_extraction_from_answer_text() {
    let text = "Here is the result: {\"category\":\"LANDMARK\",\"confidence\":0.9} thanks";
    let doc = parse_vision_document(text).unwrap();
    let analysis = extract_metadata(&doc);
    assert_eq!(analysis.category, "LANDMARK");
    let confidence = analysis.confidence.expect("confidence field present");
    assert_eq!(confidence.as_f64(), Some(0.9));
    assert_eq!(analysis.difficulty, "EASY");
    assert!(!analysis.verified);
    assert_eq!(analysis.tags.len(), 0);
}

#[test]
fn malformed_answer_text_is_rejected() {
    assert!(matches!(
        parse_vision_document("nothing json-like here"),
        Err(VisionError::MalformedResult)
    ));
    assert!(matches!(
        parse_vision_document("prefix { not json at all } suffix"),
        Err(VisionError::MalformedResult)
    ));
}

#[test]
fn extraction_reads_all_recognized_fields() {
    let doc: serde_json::Value = serde_json::from_str(
        "{\"category\":\"NATURE\",\"confidence\":0.75,\"difficulty\":\"HARD\",\"verified\":true,\
         \"tags\":[\"Volcanico \",\"UNESCO\",\"\"],\"authenticity\":\"AUTHENTIC\"}",
    )
    .unwrap();
    let analysis = extract_metadata(&doc);
    assert_eq!(analysis.category, "NATURE");
    assert_eq!(analysis.difficulty, "HARD");
    assert!(analysis.verified);
    assert_eq!(analysis.tags, vec!["volcanico".to_string(), "unesco".to_string()]);
}

#[test]
fn wrong_typed_fields_fall_back() {
    let doc: serde_json::Value =
        serde_json::from_str("{\"category\":7,\"verified\":\"yes\",\"tags\":\"oops\"}").unwrap();
    let analysis = extract_metadata(&doc);
    assert_eq!(analysis.category, "UNKNOWN");
    assert_eq!(analysis.difficulty, "EASY");
    assert!(!analysis.verified);
    assert_eq!(analysis.tags.len(), 0);
}

#[test]
fn tags_normalize_lowercased_trimmed_dropping_empties() {
    let raw = vec!["Volcanico ".to_string(), "UNESCO".to_string(), "".to_string()];
    assert_eq!(normalize_tags(&raw), vec!["volcanico".to_string(), "unesco".to_string()]);
    let spaces = vec!["  MiXeD Case  ".to_string(), "   ".to_string()];
    assert_eq!(normalize_tags(&spaces), vec!["mixed case".to_string()]);
}

#[test]
fn candidate_text_extraction() {
    let ok: serde_json::Value = serde_json::from_str(
        "{\"candidates\":[{\"content\":{\"parts\":[{\"text\":\"hello\"}]}}]}",
    )
    .unwrap();
    assert_eq!(extract_candidate_text(&ok).unwrap(), "hello");

    let empty: serde_json::Value = serde_json::from_str("{\"candidates\":[]}").unwrap();
    assert!(matches!(extract_candidate_text(&empty), Err(VisionError::EmptyResponse)));

    let no_parts: serde_json::Value =
        serde_json::from_str("{\"candidates\":[{\"content\":{\"parts\":[]}}]}").unwrap();
    assert!(matches!(extract_candidate_text(&no_parts), Err(VisionError::EmptyResponse)));
}

#[test]
fn response_interpretation_end_to_end() {
    let body = "{\"candidates\":[{\"content\":{\"parts\":[{\"text\":\
                \"Sure! {\\\"category\\\":\\\"ART\\\"} done\"}]}}]}";
    let doc = interpret_vision_response(200, body).unwrap();
    let analysis = extract_metadata(&doc);
    assert_eq!(analysis.category, "ART");

    match interpret_vision_response(503, "overloaded right now") {
        Err(VisionError::Api { status, body }) => {
            assert_eq!(status, 503);
            assert_eq!(body, "overloaded right now");
        },
        other => panic!("expected an Api error, got {:?}", other),
    }

    assert!(matches!(
        interpret_vision_response(200, "not json"),
        Err(VisionError::EmptyResponse)
    ));
}

#[test]
fn json_escaping_for_request_bodies() {
    assert_eq!(json_escape("a\"b\\c\nd"), "a\\\"b\\\\c\\nd");
    assert_eq!(json_escape("tab\there"), "tab\\there");
    assert_eq!(json_escape("\u{1}"), "\\u0001");
    assert_eq!(json_escape("plain"), "plain");
}

#[test]
fn request_body_framing_matches_serde() {
    let body = build_request_body("say \"hi\"\nplease", "QUJD");
    let parsed: serde_json::Value = serde_json::from_str(&body).unwrap();
    let text = parsed["contents"][0]["parts"][0]["text"].as_str().unwrap();
    assert_eq!(text, "say \"hi\"\nplease");
    let inline = &parsed["contents"][0]["parts"][1]["inlineData"];
    assert_eq!(inline["mimeType"].as_str(), Some("image/jpeg"));
    assert_eq!(inline["data"].as_str(), Some("QUJD"));
}

#[test]
fn full_request_encodes_image_inline() {
    let c = ContextInput {
        gps: None,
        country: None,
        city: None,
        place_name: None,
        timestamp: None,
        solar: None,
        orientation: None,
    };
    let body = build_vision_request(&c, &[0xFF]);
    assert!(body.contains("\"data\":\"/w==\""));
    let parsed: serde_json::Value = serde_json::from_str(&body).unwrap();
    let text = parsed["contents"][0]["parts"][0]["text"].as_str().unwrap();
    assert!(text.starts_with("Analiza esta imagen"));
}

#[test]
fn vision_url_layout() {
    assert_eq!(
        build_vision_url("https://api.example", "models/m1", "SECRET-REDACTED"),
        "https://api.example/models/m1:generateContent?key=SECRET-REDACTED"
    );
}
