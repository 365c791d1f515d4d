use shellcmd::error::QueryError;
use shellcmd::history::list;
use shellcmd::session::{finish_query, start_query};

#[test]
fn transport_failure_writes_no_history() {
    let out = finish_query(Err("timed out".to_string()), None, "list files", "t");
    assert_eq!(out.answer, Err(QueryError::TransportError("timed out".to_string())));
    assert!(out.history.is_none());
}

#[test]
fn upstream_failure_writes_no_history() {
    let out = finish_query(Ok((200, b"{\"choices\":[]}".to_vec())), Some("[]"), "list files", "t");
    assert!(matches!(out.answer, Err(QueryError::UpstreamError(_))));
    assert!(out.history.is_none());
}

#[test]
fn answer_is_recorded() {
    let body = "{\"choices\":[{\"message\":{\"role\":\"assistant\",\"content\":\" ls \\n\"}}]}";
    let out = finish_query(Ok((200, body.as_bytes().to_vec())), None, "list files", "2024-01-02T03:04:05+00:00");
    assert_eq!(out.answer, Ok("ls".to_string()));
    let text = out.history.unwrap().unwrap();
    let v = list(Some(&text)).unwrap();
    assert_eq!(v.len(), 1);
    assert_eq!(v[0].query, "list files");
    assert_eq!(v[0].response, "ls");
    assert_eq!(v[0].timestamp, "2024-01-02T03:04:05+00:00");
}

#[test]
fn malformed_history_is_reported_with_the_answer() {
    let body = "{\"choices\":[{\"message\":{\"role\":\"assistant\",\"content\":\"ls\"}}]}";
    let out = finish_query(Ok((200, body.as_bytes().to_vec())), Some("{"), "list files", "t");
    assert_eq!(out.answer, Ok("ls".to_string()));
    assert!(matches!(out.history, Some(Err(QueryError::PersistenceError(_)))));
}

#[test]
fn start_without_config() {
    assert!(matches!(start_query(None, "list files"), Err(QueryError::NotConfigured)));
    assert!(matches!(start_query(Some("[]"), "list files"), Err(QueryError::InvalidConfig)));
}

#[test]
fn start_with_config() {
    let q = start_query(Some("{\"api_key\":\"SECRET-REDACTED\",\"model\":\"gpt-4\"}"), "list files").unwrap();
    assert_eq!(q.query, "list files");
    assert_eq!(q.api_key, "SECRET-REDACTED");
    assert_eq!(q.model, "gpt-4");
}
