use loadtest::caller::{
    check_header_text, extract_media_type, is_json_media_type, is_success, judge_body,
    outcome_of_parsed, CallError, Head, Notice, Verdict,
};
use loadtest::json::Json;

fn head(status: u16, content_type: Option<&str>) -> Head {
    Head { status, content_type: content_type.map(|text| text.as_bytes().to_vec()) }
}

fn ok_true() -> serde_json::Value {
    let mut object = serde_json::Map::new();
    object.insert("ok".to_string(), serde_json::Value::Bool(true));
    serde_json::Value::Object(object)
}

#[test]
fn success_is_200_to_299() {
    assert!(!is_success(0));
    assert!(!is_success(199));
    assert!(is_success(200));
    assert!(is_success(204));
    assert!(is_success(299));
    assert!(!is_success(300));
    assert!(!is_success(404));
    assert!(!is_success(500));
    assert!(!is_success(u16::MAX));
}

#[test]
fn header_text_is_visible_ascii_or_tab() {
    assert!(check_header_text(b"application/json; charset=utf-8"));
    assert!(check_header_text(b""));
    assert!(check_header_text(b"a\tb"));
    assert!(check_header_text(b" ~"));
    assert!(!check_header_text(b"a\nb"));
    assert!(!check_header_text(b"a\x7fb"));
    assert!(!check_header_text(b"caf\xc3\xa9"));
    assert!(!check_header_text(b"\x00"));
    assert!(!check_header_text(b"\x1f"));
}

#[test]
fn media_type_stands_before_the_first_semicolon() {
    assert_eq!(extract_media_type(b"application/json"), b"application/json");
    assert_eq!(extract_media_type(b"application/json; charset=utf-8"), b"application/json");
    assert_eq!(extract_media_type(b"text/html;charset=utf-8;q=1"), b"text/html");
    assert_eq!(extract_media_type(b";charset=utf-8"), b"");
    assert_eq!(extract_media_type(b""), b"");
}

#[test]
fn media_type_is_trimmed_of_spaces_and_tabs() {
    assert_eq!(extract_media_type(b"  application/json \t; charset=utf-8"), b"application/json");
    assert_eq!(extract_media_type(b"\ttext/plain"), b"text/plain");
    assert_eq!(extract_media_type(b"   "), b"");
    assert_eq!(extract_media_type(b" \t ; x"), b"");
    assert_eq!(extract_media_type(b"a b"), b"a b");
    assert_eq!(extract_media_type(b" a b "), b"a b");
}

#[test]
fn json_media_type_is_matched_exactly() {
    assert!(is_json_media_type(b"application/json"));
    assert!(!is_json_media_type(b"application/JSON"));
    assert!(!is_json_media_type(b"application/json "));
    assert!(!is_json_media_type(b"application/jso"));
    assert!(!is_json_media_type(b"application/jsonp"));
    assert!(!is_json_media_type(b"text/html"));
    assert!(!is_json_media_type(b""));
}

#[test]
fn declared_media_type_of_a_head() {
    assert_eq!(head(200, None).declared_media_type(), None);
    assert_eq!(
        head(200, Some("application/json; charset=utf-8")).declared_media_type(),
        Some(b"application/json".to_vec())
    );
    assert_eq!(head(200, Some("")).declared_media_type(), Some(Vec::new()));
    let binary = Head { status: 200, content_type: Some(vec![0xff, 0xfe]) };
    assert_eq!(binary.declared_media_type(), None);
}

#[test]
fn successful_json_head_asks_for_the_body() {
    let (verdict, notices) = head(200, Some("application/json")).judge(0);
    assert_eq!(verdict, Verdict::ReadBody);
    assert_eq!(notices, vec![Notice::Executed { endpoint: 0 }]);
    let (verdict, notices) = head(201, Some(" application/json ; charset=utf-8")).judge(4);
    assert_eq!(verdict, Verdict::ReadBody);
    assert_eq!(notices, vec![Notice::Executed { endpoint: 4 }]);
}

#[test]
fn missing_content_type_is_a_warning_only() {
    let (verdict, notices) = head(200, None).judge(1);
    assert_eq!(verdict, Verdict::ReadBody);
    assert_eq!(notices, vec![Notice::Executed { endpoint: 1 }, Notice::ContentTypeMissing]);
}

#[test]
fn content_type_that_is_not_text_counts_as_missing() {
    let binary = Head { status: 200, content_type: Some(vec![b'a', 0x80]) };
    let (verdict, notices) = binary.judge(1);
    assert_eq!(verdict, Verdict::ReadBody);
    assert_eq!(notices, vec![Notice::Executed { endpoint: 1 }, Notice::ContentTypeMissing]);
}

#[test]
fn non_success_status_yields_null_and_no_error() {
    let (verdict, notices) = head(500, Some("application/json")).judge(2);
    assert_eq!(verdict, Verdict::Finished(Ok(Json::Null)));
    assert_eq!(
        notices,
        vec![Notice::Executed { endpoint: 2 }, Notice::StatusNotSuccess { status: 500 }]
    );
    let (verdict, notices) = head(404, None).judge(2);
    assert_eq!(verdict, Verdict::Finished(Ok(Json::Null)));
    assert_eq!(
        notices,
        vec![
            Notice::Executed { endpoint: 2 },
            Notice::ContentTypeMissing,
            Notice::StatusNotSuccess { status: 404 }
        ]
    );
    let (verdict, _) = head(301, Some("application/json")).judge(2);
    assert_eq!(verdict, Verdict::Finished(Ok(Json::Null)));
}

#[test]
fn unexpected_content_type_fails_the_call() {
    let (verdict, notices) = head(200, Some("text/html; charset=utf-8")).judge(0);
    assert_eq!(verdict, Verdict::Finished(Err(CallError::ContentType)));
    assert_eq!(notices, vec![Notice::Executed { endpoint: 0 }, Notice::ContentTypeUnexpected]);
    let (verdict, notices) = head(500, Some("text/plain")).judge(0);
    assert_eq!(verdict, Verdict::Finished(Err(CallError::ContentType)));
    assert_eq!(notices, vec![Notice::Executed { endpoint: 0 }, Notice::ContentTypeUnexpected]);
    let (verdict, _) = head(200, Some("")).judge(0);
    assert_eq!(verdict, Verdict::Finished(Err(CallError::ContentType)));
    let (verdict, _) = head(200, Some("Application/Json")).judge(0);
    assert_eq!(verdict, Verdict::Finished(Err(CallError::ContentType)));
}

#[test]
fn body_is_parsed_as_json() {
    assert_eq!(judge_body(b"{\"ok\":true}"), Ok(Json::Document(ok_true())));
    assert_eq!(judge_body(b" { \"ok\" : true } \n"), Ok(Json::Document(ok_true())));
    assert_eq!(
        judge_body(b"[1, \"two\"]"),
        Ok(Json::Document(serde_json::Value::Array(vec![
            serde_json::Value::Number(serde_json::Number::from(1)),
            serde_json::Value::String("two".to_string()),
        ])))
    );
    assert_eq!(judge_body(b"false"), Ok(Json::Document(serde_json::Value::Bool(false))));
}

#[test]
fn null_body_is_the_null_document() {
    assert_eq!(judge_body(b"null"), Ok(Json::Null));
    assert_eq!(judge_body(b"  null "), Ok(Json::Null));
}

#[test]
fn body_that_is_not_json_is_a_decode_error() {
    assert_eq!(judge_body(b""), Err(CallError::Decode));
    assert_eq!(judge_body(b"<html></html>"), Err(CallError::Decode));
    assert_eq!(judge_body(b"{\"ok\":true"), Err(CallError::Decode));
    assert_eq!(judge_body(b"{\"ok\":true} trailing"), Err(CallError::Decode));
    assert_eq!(judge_body(b"\xff\xfe"), Err(CallError::Decode));
}

#[test]
fn parser_answer_becomes_call_outcome() {
    assert_eq!(outcome_of_parsed(Ok(Json::Null)), Ok(Json::Null));
    assert_eq!(outcome_of_parsed(Ok(Json::Document(ok_true()))), Ok(Json::Document(ok_true())));
    let refusal = serde_json::from_slice::<serde_json::Value>(b"nope").unwrap_err();
    assert_eq!(outcome_of_parsed(Err(refusal)), Err(CallError::Decode));
}
