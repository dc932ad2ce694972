//! Requests and answers on the wire.

use egregore::api_error::{ApiError, ErrorCode};
use egregore::http::{
    find_header_end, head_progress, headers_authorized, parse_http_response, parse_request_head,
    plan_body, request_text, response_text, status_text, take_body, BodyPlan, HeadError,
    HeadProgress, ResponseError, REQUEST_LIMIT,
};
use egregore::responses::{build_error_envelope, verb_success_result, HttpResponse};

#[test]
fn the_head_ends_at_the_first_empty_line() {
    let bytes = b"GET / HTTP/1.1\r\n\r\nbody\r\n\r\n".to_vec();
    assert_eq!(find_header_end(&bytes), Some(14));
    assert_eq!(head_progress(&bytes), HeadProgress::EndsAt(14));
    assert_eq!(find_header_end(&b"GET / HTTP/1.1\r\n".to_vec()), None);
    assert_eq!(head_progress(&b"x".to_vec()), HeadProgress::Incomplete);
    assert_eq!(head_progress(&vec![0; REQUEST_LIMIT + 1]), HeadProgress::TooLarge);
}

#[test]
fn a_request_head_is_read() {
    let head = parse_request_head(
        "POST /v1/query HTTP/1.1\r\nHost: x\r\nContent-Length: 12\r\nAUTHORIZATION:  Bearer tok \r\nbad line",
    )
    .unwrap_or_else(|e| panic!("{}", e.message()));
    assert_eq!(head.method, "POST");
    assert_eq!(head.path, "/v1/query");
    assert_eq!(head.headers.get("content-length"), Some("12"));
    assert_eq!(head.headers.get("authorization"), Some("Bearer tok"));
    assert_eq!(head.headers.get("bad line"), None);
    assert!(headers_authorized(&head.headers, "tok"));
    assert!(!headers_authorized(&head.headers, "to"));
    assert_eq!(plan_body(&head.headers, "tok"), BodyPlan::Read(12));
    assert_eq!(plan_body(&head.headers, "other"), BodyPlan::Skip);
}

#[test]
fn unreadable_heads_are_refused() {
    assert!(matches!(parse_request_head(""), Err(HeadError::MissingMethod)));
    assert!(matches!(parse_request_head("GET\r\n"), Err(HeadError::MissingPath)));
    assert_ne!(HeadError::MissingMethod.message(), HeadError::MissingPath.message());
}

#[test]
fn bodies_over_the_limit_are_not_read() {
    let text = |n: &str| format!("POST / HTTP/1.1\r\ncontent-length: {n}\r\nauthorization: Bearer t");
    let plan = |n: &str| match parse_request_head(&text(n)) {
        Ok(head) => plan_body(&head.headers, "t"),
        Err(_) => unreachable!(),
    };
    assert_eq!(plan("33554432"), BodyPlan::Read(REQUEST_LIMIT));
    assert_eq!(plan("33554433"), BodyPlan::TooLarge);
    assert_eq!(plan("many"), BodyPlan::Read(0));
    let buffer = b"h\r\n\r\nabcd".to_vec();
    assert_eq!(take_body(&buffer, 1, 3), Some(b"abc".to_vec()));
    assert_eq!(take_body(&buffer, 1, 5), None);
}

#[test]
fn an_answer_is_read_as_it_was_written() {
    for (status, body) in [(200_u16, "{}"), (404, ""), (503, "a\r\n\r\nb"), (418, "\u{e9}")] {
        assert_eq!(
            parse_http_response(&response_text(status, body)),
            Ok((status, body.to_owned()))
        );
    }
    assert_eq!(status_text(200), "OK");
    assert!(response_text(200, "{}").contains("Content-Length: 2\r\n"));
}

#[test]
fn unreadable_answers_are_refused() {
    assert_eq!(parse_http_response("HTTP/1.1 200 OK"), Err(ResponseError::Invalid));
    assert_eq!(parse_http_response("HTTP/1.1\r\n\r\n"), Err(ResponseError::MissingStatus));
    assert_eq!(
        parse_http_response("HTTP/1.1 two OK\r\n\r\n"),
        Err(ResponseError::InvalidStatus)
    );
    assert_ne!(ResponseError::Invalid.message(), ResponseError::MissingStatus.message());
}

#[test]
fn a_request_shows_its_token_only_when_given_one() {
    let with = request_text("POST", "/v1/query", Some("tok"), "{}");
    assert!(with.starts_with("POST /v1/query HTTP/1.1\r\n"));
    assert!(with.contains("Authorization: Bearer tok\r\n"));
    assert!(with.ends_with("\r\n\r\n{}"));
    let without = request_text("GET", "/v1/health", None, "");
    assert!(!without.contains("Authorization"));
}

#[test]
fn errors_are_enveloped() {
    let error = ApiError::missing_field("agent_id");
    assert_eq!(error.status, 400);
    assert_eq!(error.code, ErrorCode::MissingField);
    let body = build_error_envelope(Some("r\"1"), &error);
    assert!(body.contains("\"r\\\"1\""), "{body}");
    assert!(body.contains("agent_id"));
    let value: serde_json::Value = match serde_json::from_str(&body) {
        Ok(v) => v,
        Err(e) => panic!("{e}: {body}"),
    };
    assert_eq!(value["error"]["code"], "missing_field");
    assert_eq!(HttpResponse::error(&error).status, 400);
    assert_eq!(HttpResponse::error_with_id("r\"1", &error).body, body);
}

#[test]
fn answers_are_valid_json() {
    let answers = vec![
        HttpResponse::success(Some("r"), 200, "{\"a\":1}"),
        HttpResponse::success(None, 202, "null"),
        HttpResponse::health("0.1", "/data \"x\""),
        HttpResponse::running(1, 2, 3),
        HttpResponse::job_queued("r", "job-1", true),
        HttpResponse::job_queued("r", "job-1", false),
    ];
    for a in &answers {
        assert!(a.status < 400);
        assert!(serde_json::from_str::<serde_json::Value>(&a.body).is_ok(), "{}", a.body);
    }
    let verb = verb_success_result("get_records", "\"s\"", "[]", 0);
    assert!(serde_json::from_str::<serde_json::Value>(&verb).is_ok(), "{verb}");
}

#[test]
fn each_error_has_its_status() {
    let codes = [
        (ApiError::unauthorized(), 401),
        (ApiError::bad_request("x".to_owned()), 400),
        (ApiError::bad_request_field("x", "f"), 400),
        (ApiError::invalid_domain(), 400),
        (ApiError::not_found("x".to_owned()), 404),
        (ApiError::conflict("x".to_owned()), 409),
        (ApiError::payload_too_large(), 413),
        (ApiError::query_timeout(), 408),
        (ApiError::internal("x".to_owned()), 500),
        (ApiError::shutdown_in_progress(), 503),
    ];
    for (error, status) in codes {
        assert_eq!(error.status, status, "{}", error.code.as_str());
        assert_eq!(error.code.http_status(), status);
    }
}
