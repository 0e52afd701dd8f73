use lexisoup::chatgpt::{
    answer, model_or_default, request_input, url_or_default, ChatGPTContent, ChatGPTOutput,
    ChatGPTResponse, ChatGPTUsage, DEFAULT_MODEL, DEFAULT_URL, MISSING_TEXT_MESSAGE,
};
use lexisoup::error::{is_success, UpstreamReply, BAD_GATEWAY};

fn response_with(texts: &[&str]) -> ChatGPTResponse {
    ChatGPTResponse {
        output: vec![ChatGPTOutput {
            content: texts
                .iter()
                .map(|t| ChatGPTContent { text: t.to_string(), kind: "str".to_string() })
                .collect(),
            id: "123".to_string(),
            kind: "str".to_string(),
            status: "ok".to_string(),
            role: "assistant".to_string(),
        }],
        status: "ok".to_string(),
        error: None,
        model: "4o".to_string(),
        usage: ChatGPTUsage { input_tokens: 10, output_tokens: 20, total_tokens: 12345 },
    }
}

#[test]
fn request_returns_model_answer() {
    assert_eq!(request_input("What is the answer to life?"), "What is the answer to life?");
    let result = answer(UpstreamReply::Received(response_with(&["42 is the answer."]))).unwrap();
    assert_eq!(result, "42 is the answer.");
}

#[test]
fn chatgpt_returns_bad_gateway_on_upstream_non_2xx() {
    let err_body = r#"{"error":"boom"}"#;
    assert!(!is_success(500));
    let result = answer(UpstreamReply::Rejected { status: 500, body: err_body.to_string() });
    let Err(err) = result else {
        panic!("expected Err");
    };
    assert_eq!(err.status, BAD_GATEWAY);
    assert_eq!(err.message, err_body);
}

#[test]
fn chatgpt_returns_bad_gateway_on_network_error() {
    let err = answer(UpstreamReply::Unreachable("connection refused".to_string()))
        .expect_err("should be Err");
    assert_eq!(err.status, BAD_GATEWAY);
    assert_eq!(err.message, "connection refused");
}

#[test]
fn undecodable_reply_is_bad_gateway() {
    let err = answer(UpstreamReply::Malformed("expected value at line 1".to_string())).unwrap_err();
    assert_eq!(err.status, 502);
    assert_eq!(err.message, "expected value at line 1");
}

#[test]
fn reply_without_text_is_bad_gateway() {
    let err = answer(UpstreamReply::Received(response_with(&[]))).unwrap_err();
    assert_eq!(err.status, 502);
    assert_eq!(err.message, MISSING_TEXT_MESSAGE);
    let mut empty = response_with(&["x"]);
    empty.output.clear();
    assert_eq!(
        answer(UpstreamReply::Received(empty)).unwrap_err().message,
        "missing `output[0].content[0].text` in upstream response"
    );
}

#[test]
fn first_content_part_is_the_answer() {
    let result = answer(UpstreamReply::Received(response_with(&["first", "second"]))).unwrap();
    assert_eq!(result, "first");
}

#[test]
fn request_input_flattens_lines_and_trims() {
    assert_eq!(request_input("  line one\nline two\n"), "line one line two");
    assert_eq!(request_input("\n\n"), "");
    assert_eq!(request_input("a\r\nb"), "a\r b");
}

#[test]
fn defaults_apply_only_when_nothing_is_named() {
    assert_eq!(model_or_default(None), DEFAULT_MODEL);
    assert_eq!(DEFAULT_MODEL, "gpt-4.1");
    assert_eq!(model_or_default(Some("o3")), "o3");
    assert_eq!(url_or_default(None), DEFAULT_URL);
    assert_eq!(DEFAULT_URL, "https://api.openai.com/v1/responses");
    assert_eq!(url_or_default(Some("http://localhost/v1/responses")), "http://localhost/v1/responses");
}

#[test]
fn success_statuses_are_2xx() {
    assert!(is_success(200));
    assert!(is_success(299));
    assert!(!is_success(199));
    assert!(!is_success(300));
    assert!(!is_success(502));
}
