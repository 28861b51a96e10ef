use zoon_styles::connection::{request_failed_text, up_msg_headers, up_msg_outcome, SendUpMsgError};

#[test]
fn not_2xx_message() {
    assert_eq!(SendUpMsgError::ResponseIsNot2xx.message(), "response status is not 2xx");
}

#[test]
fn outcome_follows_response_status() {
    assert!(matches!(up_msg_outcome(7u32, Ok(true)), Ok(7)));
    assert!(matches!(up_msg_outcome(7u32, Ok(false)), Err(SendUpMsgError::ResponseIsNot2xx)));
}

#[test]
fn headers_include_token_when_present() {
    let h = up_msg_headers("c1".to_string(), "s1".to_string(), Some("t1".to_string()));
    assert_eq!(
        h,
        vec![
            ("X-Correlation-ID".to_string(), "c1".to_string()),
            ("X-Session-ID".to_string(), "s1".to_string()),
            ("X-Auth-Token".to_string(), "t1".to_string()),
        ]
    );
    assert_eq!(up_msg_headers("c".to_string(), "s".to_string(), None).len(), 2);
}

#[test]
fn request_failed_text_appends_debug() {
    assert_eq!(request_failed_text("JsValue(TypeError)"), "request failed: JsValue(TypeError)");
}
