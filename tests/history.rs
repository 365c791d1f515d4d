use shellcmd::error::QueryError;
use shellcmd::history::{list, save, History};

fn entry(q: &str, r: &str, t: &str) -> History {
    History { query: q.to_string(), response: r.to_string(), timestamp: t.to_string() }
}

#[test]
fn missing_history_lists_empty() {
    assert_eq!(list(None), Ok(vec![]));
}

#[test]
fn empty_array_lists_empty() {
    assert_eq!(list(Some("[]")), Ok(vec![]));
}

#[test]
fn append_then_list() {
    let first = save(None, "list files", "ls", "2024-01-02T03:04:05+00:00").unwrap();
    assert_eq!(list(Some(&first)), Ok(vec![entry("list files", "ls", "2024-01-02T03:04:05+00:00")]));
    let second = save(Some(&first), "where am i", "pwd", "2024-01-02T03:05:00+00:00").unwrap();
    assert_eq!(
        list(Some(&second)),
        Ok(vec![
            entry("list files", "ls", "2024-01-02T03:04:05+00:00"),
            entry("where am i", "pwd", "2024-01-02T03:05:00+00:00"),
        ])
    );
}

#[test]
fn append_many_keeps_order() {
    let mut text: Option<String> = None;
    for i in 0..12 {
        let q = format!("q{}", i);
        text = Some(save(text.as_deref(), &q, "r", "t").unwrap());
    }
    let v = list(text.as_deref()).unwrap();
    assert_eq!(v.len(), 12);
    for (i, h) in v.iter().enumerate() {
        assert_eq!(h.query, format!("q{}", i));
    }
}

#[test]
fn save_on_missing_log_succeeds() {
    let text = save(None, "list files", "ls", "2024-01-02T03:04:05+00:00").unwrap();
    let v = list(Some(&text)).unwrap();
    assert_eq!(v.len(), 1);
    assert_eq!(v[0].query, "list files");
    assert_eq!(v[0].response, "ls");
    assert_eq!(save(Some("[]"), "list files", "ls", "2024-01-02T03:04:05+00:00"), Ok(text));
}

#[test]
fn reads_history_written_elsewhere() {
    let text = "[{\"query\":\"a\",\"response\":\"b\",\"timestamp\":\"c\",\"extra\":1}]";
    assert_eq!(list(Some(text)), Ok(vec![entry("a", "b", "c")]));
}

#[test]
fn malformed_history_is_persistence_error() {
    assert!(matches!(list(Some("{")), Err(QueryError::PersistenceError(_))));
    assert!(matches!(list(Some("[{\"query\":\"a\"}]")), Err(QueryError::PersistenceError(_))));
    assert!(matches!(save(Some("nope"), "q", "r", "t"), Err(QueryError::PersistenceError(_))));
}
