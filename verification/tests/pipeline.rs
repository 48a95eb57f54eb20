use gemini_proxy::classify::{classify_response, Classification};
use gemini_proxy::config::{
    default_endpoint, redirect_limit, request_timeout_secs, resolve_endpoint, user_agent_value,
};
use gemini_proxy::is_success_status;
use gemini_proxy::outcome::{
    diagnostic_file_name, failure_kind_of, outcome_for, transport_failure, FailureKind, Outcome,
};

#[test]
fn success_status_range_is_the_two_hundreds() {
    assert!(!is_success_status(199));
    assert!(is_success_status(200));
    assert!(is_success_status(204));
    assert!(is_success_status(299));
    assert!(!is_success_status(300));
    assert!(!is_success_status(500));
}

#[test]
fn ok_json_body_yields_the_text() {
    let c = classify_response(200, "{\"text\":\"hello\"}");
    assert!(matches!(&c, Classification::Accepted { text } if text == "hello"));
    let o = outcome_for(c, "{\"text\":\"hello\"}", None);
    match o {
        Outcome::Success { text } => assert_eq!(text, "hello"),
        _ => panic!("expected success"),
    }
}

#[test]
fn extra_category_member_is_ignored() {
    let c = classify_response(200, "{\"text\":\"hi\",\"category\":\"math\"}");
    assert!(matches!(&c, Classification::Accepted { text } if text == "hi"));
}

#[test]
fn error_status_plans_the_server_error_file() {
    let body = "<html>internal error</html>";
    let c = classify_response(500, body);
    assert!(matches!(c, Classification::HttpError { status: 500 }));
    let kind = failure_kind_of(&c).unwrap();
    assert_eq!(kind, FailureKind::ServerError);
    assert_eq!(diagnostic_file_name(kind), Some("error_response.html"));
    let o = outcome_for(c, body, Some("app_logs/error_response.html".to_string()));
    match o {
        Outcome::Failure { kind, message, diagnostic_path } => {
            assert_eq!(kind, FailureKind::ServerError);
            assert!(message.contains("500"));
            assert!(message.contains("app_logs/error_response.html"));
            assert_eq!(diagnostic_path.as_deref(), Some("app_logs/error_response.html"));
        },
        _ => panic!("expected failure"),
    }
}

#[test]
fn failed_diagnostic_write_still_surfaces_the_failure() {
    let c = classify_response(404, "not found");
    let o = outcome_for(c, "not found", None);
    match o {
        Outcome::Failure { kind, message, diagnostic_path } => {
            assert_eq!(kind, FailureKind::ServerError);
            assert!(message.contains("404"));
            assert!(message.contains("could not be saved"));
            assert_eq!(diagnostic_path, None);
        },
        _ => panic!("expected failure"),
    }
}

#[test]
fn html_body_with_ok_status_plans_the_html_file() {
    let body = "<!DOCTYPE html><html><body>maintenance</body></html>";
    let c = classify_response(200, body);
    assert!(matches!(c, Classification::NotJson));
    let kind = failure_kind_of(&c).unwrap();
    assert_eq!(kind, FailureKind::UnexpectedContentType);
    assert_eq!(diagnostic_file_name(kind), Some("html_response_body.html"));
    let o = outcome_for(c, body, Some("app_logs/html_response_body.html".to_string()));
    match o {
        Outcome::Failure { kind, message, diagnostic_path } => {
            assert_eq!(kind, FailureKind::UnexpectedContentType);
            assert!(message.contains("app_logs/html_response_body.html"));
            assert!(diagnostic_path.is_some());
        },
        _ => panic!("expected failure"),
    }
}

#[test]
fn leading_whitespace_before_brace_still_counts_as_json() {
    let c = classify_response(200, " \t\r\n {\"text\":\"x\"}");
    assert!(matches!(&c, Classification::Accepted { text } if text == "x"));
}

#[test]
fn non_brace_body_is_not_json() {
    assert!(matches!(classify_response(200, "plain words"), Classification::NotJson));
    assert!(matches!(classify_response(200, "[1,2]"), Classification::NotJson));
    assert!(matches!(classify_response(200, ""), Classification::NotJson));
}

#[test]
fn json_without_text_member_is_a_decode_error() {
    let body = "{\"oops\":true}";
    let c = classify_response(200, body);
    assert!(matches!(c, Classification::SchemaMismatch));
    let kind = failure_kind_of(&c).unwrap();
    assert_eq!(kind, FailureKind::DecodeError);
    assert_eq!(diagnostic_file_name(kind), None);
    let o = outcome_for(c, body, None);
    match o {
        Outcome::Failure { kind, message, diagnostic_path } => {
            assert_eq!(kind, FailureKind::DecodeError);
            assert!(message.contains(body));
            assert_eq!(diagnostic_path, None);
        },
        _ => panic!("expected failure"),
    }
}

#[test]
fn non_string_text_member_is_a_decode_error() {
    assert!(matches!(classify_response(200, "{\"text\":5}"), Classification::SchemaMismatch));
    assert!(matches!(classify_response(200, "{\"text\": null}"), Classification::SchemaMismatch));
}

#[test]
fn malformed_json_is_a_decode_error() {
    assert!(matches!(classify_response(200, "{\"text\":\"unterminated"), Classification::SchemaMismatch));
}

#[test]
fn transport_failure_names_the_url() {
    let url = resolve_endpoint(None);
    assert_eq!(url, "https://www.focalrina.com/api/gemini");
    let o = transport_failure(&url, "timed out after 60 seconds");
    match o {
        Outcome::Failure { kind, message, diagnostic_path } => {
            assert_eq!(kind, FailureKind::TransportError);
            assert!(message.contains("https://www.focalrina.com/api/gemini"));
            assert!(message.contains("timed out after 60 seconds"));
            assert_eq!(diagnostic_path, None);
        },
        _ => panic!("expected failure"),
    }
}

#[test]
fn configured_endpoint_wins_over_the_fallback() {
    let url = resolve_endpoint(Some("https://example.test/api".to_string()));
    assert_eq!(url, "https://example.test/api");
    assert_eq!(default_endpoint(), "https://www.focalrina.com/api/gemini");
}

#[test]
fn transport_policy_is_fixed() {
    assert_eq!(redirect_limit(), 5);
    assert_eq!(request_timeout_secs(), 60);
    assert_eq!(user_agent_value(), "Tauri-Gemini-Client/1.0");
}

#[test]
fn repeated_failures_of_one_kind_target_one_file() {
    let c1 = classify_response(500, "first body");
    let c2 = classify_response(503, "a much longer second body than the first one");
    let k1 = failure_kind_of(&c1).unwrap();
    let k2 = failure_kind_of(&c2).unwrap();
    assert_eq!(k1, k2);
    assert_eq!(diagnostic_file_name(k1), diagnostic_file_name(k2));
    assert_eq!(diagnostic_file_name(k1), Some("error_response.html"));
}

#[test]
fn into_result_carries_text_or_message() {
    let ok = classify_response(200, "{\"text\":\"fine\"}");
    let o = outcome_for(ok, "{\"text\":\"fine\"}", None);
    assert_eq!(o.into_result().unwrap(), "fine");
    let bad = classify_response(500, "nope");
    let o = outcome_for(bad, "nope", None);
    let err = o.into_result().unwrap_err();
    assert!(err.contains("500"));
}
