use symsight_core::error::LlmError;
use symsight_core::llm::{
    redact_secrets, response_text, responses_url, validate_base_url, CompletionRequest,
    ContentPart, LlmClient, ResponseDoc, ResponseItem, ScriptedClient,
};

#[test]
fn redact_secrets_strips_xai_keys_and_bearer() {
    assert_eq!(
        redact_secrets("got xai-ABC123xyz from API"),
        "got xai-[redacted] from API"
    );
    assert_eq!(
        redact_secrets("Authorization: Bearer super-secret-token"),
        "Authorization: Bearer [redacted]"
    );
}

#[test]
fn rejects_cleartext_remote_http_base_url() {
    let err = validate_base_url("http://example.com/v1")
        .err()
        .expect("cleartext remote http must fail");
    assert!(err.message().contains("https://"), "{}", err.message());
}

#[test]
fn allows_https_and_localhost_http() {
    assert!(validate_base_url("https://api.x.ai/v1").is_ok());
    assert!(validate_base_url("http://127.0.0.1:8080/v1").is_ok());
    assert!(validate_base_url("http://localhost:8080/v1").is_ok());
}

#[test]
fn base_url_check_ignores_case_and_spaces() {
    assert!(validate_base_url("  HTTPS://API.X.AI/v1 ").is_ok());
    assert!(validate_base_url("http://[::1]:9000").is_ok());
    let err = validate_base_url("ftp://localhost").unwrap_err();
    assert_eq!(
        err,
        LlmError::Http(
            "SYMSIGHT_BASE_URL must be https:// (http is allowed only for localhost)".into()
        )
    );
    assert_eq!(
        err.message(),
        "LLM request failed: SYMSIGHT_BASE_URL must be https:// (http is allowed only for localhost)"
    );
}

#[test]
fn responses_url_trims_trailing_slashes() {
    assert_eq!(responses_url("https://api.x.ai/v1"), "https://api.x.ai/v1/responses");
    assert_eq!(responses_url("https://api.x.ai/v1//"), "https://api.x.ai/v1/responses");
}

fn part(kind: Option<&str>, text: Option<&str>) -> ContentPart {
    ContentPart {
        part_type: kind.map(str::to_string),
        text: text.map(str::to_string),
    }
}

#[test]
fn response_text_prefers_output_text() {
    let doc = ResponseDoc {
        output_text: Some("Hello from output_text".into()),
        output: Some(vec![ResponseItem {
            item_type: Some("message".into()),
            content: Some(vec![part(Some("output_text"), Some("ignored"))]),
        }]),
    };
    assert_eq!(response_text(&doc), "Hello from output_text");
}

#[test]
fn response_text_skips_reasoning_and_tool_items() {
    let doc = ResponseDoc {
        output_text: Some("   ".into()),
        output: Some(vec![
            ResponseItem {
                item_type: Some("reasoning".into()),
                content: Some(vec![part(Some("output_text"), Some("thinking"))]),
            },
            ResponseItem {
                item_type: Some("web_search_tool_call".into()),
                content: Some(vec![part(None, Some("searching"))]),
            },
            ResponseItem {
                item_type: Some("message".into()),
                content: Some(vec![
                    part(Some("output_text"), Some("Visible ")),
                    part(Some("refusal"), Some("hidden")),
                    part(None, Some("answer")),
                ]),
            },
        ]),
    };
    assert_eq!(response_text(&doc), "Visible answer");
}

#[test]
fn response_text_of_empty_reply_is_empty() {
    let doc = ResponseDoc {
        output_text: None,
        output: None,
    };
    assert_eq!(response_text(&doc), "");
}

fn request(user: &str) -> CompletionRequest {
    CompletionRequest {
        model: "m".into(),
        system: "s".into(),
        user: user.into(),
        use_search: true,
    }
}

#[test]
fn scripted_client_answers_in_order_then_empty() {
    let mut client = ScriptedClient::new(vec!["one".into(), "two".into()]);
    assert_eq!(client.create_completion(&request("a")), Ok("one".to_string()));
    assert_eq!(client.create_completion(&request("b")), Ok("two".to_string()));
    assert_eq!(client.create_completion(&request("c")), Ok(String::new()));
    assert_eq!(client.call_count(), 3);
    assert_eq!(client.calls()[1].user, "b");
    assert!(client.calls()[2].use_search);
}

#[test]
fn fresh_scripted_client_has_no_calls() {
    let mut client = ScriptedClient::new(Vec::new());
    assert_eq!(client.call_count(), 0);
    assert_eq!(client.create_completion(&request("a")), Ok(String::new()));
    assert_eq!(client.call_count(), 1);
}
