use shellcmd::completion::{interpret_reply, OpenAIQuery, NOT_TEXT, NO_CHOICE};
use shellcmd::error::QueryError;

fn ok(body: &str) -> Result<(u16, Vec<u8>), String> {
    Ok((200, body.as_bytes().to_vec()))
}

#[test]
fn empty_choices_is_upstream_error() {
    let r = interpret_reply(ok("{\"choices\": []}"));
    assert_eq!(r, Err(QueryError::UpstreamError(NO_CHOICE.to_string())));
}

#[test]
fn malformed_body_is_upstream_error() {
    let r = interpret_reply(ok("<html>rate limited</html>"));
    match r {
        Err(QueryError::UpstreamError(d)) => assert!(!d.is_empty() && d != NO_CHOICE),
        other => panic!("unexpected {:?}", other),
    }
    let r = interpret_reply(ok("{\"error\": {\"message\": \"bad key\"}}"));
    assert_eq!(r, Err(QueryError::UpstreamError(NO_CHOICE.to_string())));
}

#[test]
fn choice_without_content_is_upstream_error() {
    let r = interpret_reply(ok("{\"choices\": [{\"message\": {\"role\": \"assistant\"}}]}"));
    assert!(matches!(r, Err(QueryError::UpstreamError(_))));
}

#[test]
fn choice_without_role_is_upstream_error() {
    let r = interpret_reply(ok("{\"choices\": [{\"message\": {\"content\": \"ls\"}}]}"));
    assert_eq!(r, Err(QueryError::UpstreamError(NO_CHOICE.to_string())));
}

#[test]
fn later_malformed_choice_is_upstream_error() {
    let body = "{\"choices\": [{\"message\": {\"role\": \"assistant\", \"content\": \"ls\"}}, {\"message\": {}}]}";
    assert!(matches!(interpret_reply(ok(body)), Err(QueryError::UpstreamError(_))));
}

#[test]
fn error_status_is_upstream_error() {
    let body = b"{\"choices\": [{\"message\": {\"role\": \"assistant\", \"content\": \"ls\"}}]}".to_vec();
    let r = interpret_reply(Ok((429, body)));
    assert_eq!(r, Err(QueryError::UpstreamError("the service answered with status 429".to_string())));
}

#[test]
fn non_text_body_is_upstream_error() {
    let r = interpret_reply(Ok((200, vec![0xff, 0xfe, 0x7b])));
    assert_eq!(r, Err(QueryError::UpstreamError(NOT_TEXT.to_string())));
}

#[test]
fn transport_failure_is_transport_error() {
    let r = interpret_reply(Err("connection refused".to_string()));
    assert_eq!(r, Err(QueryError::TransportError("connection refused".to_string())));
}

#[test]
fn first_choice_is_normalized() {
    let body = "{\"id\": \"x\", \"created\": 1, \"choices\": [\
        {\"index\": 0, \"message\": {\"role\": \"assistant\", \"content\": \"  ls -la \\n\\n du -sh  \"}},\
        {\"index\": 1, \"message\": {\"role\": \"assistant\", \"content\": \"pwd\"}}]}";
    assert_eq!(interpret_reply(ok(body)), Ok("ls -la\ndu -sh".to_string()));
}

#[test]
fn request_body_holds_model_and_messages() {
    let q = OpenAIQuery {
        query: " list files ".to_string(),
        api_key: "SECRET-REDACTED".to_string(),
        model: "gpt-3.5-turbo".to_string(),
    };
    let body = q.request_body();
    let v: serde_json::Value = serde_json::from_str(&body).unwrap();
    assert_eq!(v["model"], "gpt-3.5-turbo");
    let m = v["messages"].as_array().unwrap();
    assert_eq!(m.len(), 4);
    assert_eq!(m[0]["role"], "system");
    assert_eq!(m[2]["role"], "assistant");
    assert_eq!(m[2]["content"], "ls");
    assert_eq!(m[3]["role"], "user");
    assert_eq!(m[3]["content"], "list files");
}
