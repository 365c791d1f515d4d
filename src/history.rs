//! The append-only log of past queries, kept as a JSON array of objects with
//! members `query`, `response` and `timestamp`.
use vstd::prelude::*;
use vstd::string::StringExecFns;
use crate::error::QueryError;
use crate::json::{json_rows_text, row_views, string_views, 
    decimal_text, distinct_keys, item_pointer, json_array_len_at, json_str_at, plain_key,
    rows_json, str_at, array_len_at,
};

verus! {

/// One past exchange.
#[derive(Debug, Clone, PartialEq, Eq)]
pub struct History {
    pub query: String,
    pub response: String,
    /// When the exchange happened, as RFC 3339 text.
    pub timestamp: String,
}

impl View for History {
    type V = (Seq<char>, Seq<char>, Seq<char>);

    open spec fn view(&self) -> (Seq<char>, Seq<char>, Seq<char>) {
        (self.query@, self.response@, self.timestamp@)
    }
}

/// The entries' views, in order.
pub open spec fn entry_views(v: Seq<History>) -> Seq<(Seq<char>, Seq<char>, Seq<char>)> {
    v.map_values(|h: History| h@)
}

/// The string member `key` of item `j` of the log text.
pub open spec fn field_at(text: Seq<char>, j: nat, key: Seq<char>) -> Option<Seq<char>> {
    json_str_at(text, item_pointer(j, key))
}

/// Item `j` of the log text, when it has all three members as strings.
pub open spec fn entry_in(text: Seq<char>, j: nat) -> Option<(Seq<char>, Seq<char>, Seq<char>)> {
    match (
        field_at(text, j, "query"@),
        field_at(text, j, "response"@),
        field_at(text, j, "timestamp"@),
    ) {
        (Some(q), Some(r), Some(t)) => Some((q, r, t)),
        _ => None,
    }
}

/// The entries that a log text holds, when it is an array of entries.
pub open spec fn history_in(text: Seq<char>) -> Option<Seq<(Seq<char>, Seq<char>, Seq<char>)>> {
    match json_array_len_at(text, ""@) {
        Some(n) => if forall|j: nat| j < n ==> (#[trigger] entry_in(text, j)) is Some {
            Some(Seq::new(n, |j: int| entry_in(text, j as nat)->Some_0))
        } else {
            None
        },
        None => None,
    }
}

/// The entries of the log whose text is `text`, `None` standing for a missing
/// log, which holds no entry.
pub open spec fn listed(text: Option<&str>) -> Option<Seq<(Seq<char>, Seq<char>, Seq<char>)>> {
    match text {
        None => Some(Seq::empty()),
        Some(t) => history_in(t@),
    }
}

/// The member names of an entry.
pub open spec fn history_keys() -> Seq<Seq<char>> {
    seq!["query"@, "response"@, "timestamp"@]
}

/// The text of a log that holds `entries`.
pub open spec fn history_text(entries: Seq<(Seq<char>, Seq<char>, Seq<char>)>) -> Seq<char> {
    json_rows_text(
        history_keys(),
        entries.map_values(|e: (Seq<char>, Seq<char>, Seq<char>)| seq![e.0, e.1, e.2]),
    )
}

proof fn lemma_keys()
    ensures
        plain_key("query"@),
        plain_key("response"@),
        plain_key("timestamp"@),
        "query"@ != "response"@,
        "query"@ != "timestamp"@,
        "response"@ != "timestamp"@,
{
    reveal_strlit("query");
    reveal_strlit("response");
    reveal_strlit("timestamp");
    assert("query"@[0] != "response"@[0]);
    assert("query"@[0] != "timestamp"@[0]);
    assert("response"@[0] != "timestamp"@[0]);
}

/// Member `key` of item `j` of the log text.
fn field(text: &str, j: usize, key: &str) -> (r: Option<String>)
    ensures
        r matches Some(s) ==> field_at(text@, j as nat, key@) == Some(s@),
        r is None ==> field_at(text@, j as nat, key@) is None,
{
    let p = String::from_str("/");
    let p = p.concat(decimal_text(j).as_str());
    let p = p.concat("/");
    let p = p.concat(key);
    str_at(text, p.as_str())
}

/// The entries of the log, oldest first; a missing log holds none.
pub fn list(text: Option<&str>) -> (r: Result<Vec<History>, QueryError>)
    ensures
        match listed(text) {
            Some(es) => (r matches Ok(v) && entry_views(v@) == es),
            None => r matches Err(QueryError::PersistenceError(_)),
        },
{
    match text {
        None => {
            let v: Vec<History> = Vec::new();
            assert(entry_views(v@) =~= Seq::empty());
            Ok(v)
        },
        Some(t) => {
            let n = match array_len_at(t, "") {
                None => {
                    return Err(
                        QueryError::PersistenceError(String::from_str("the history is not a list")),
                    );
                },
                Some(n) => n,
            };
            let mut v: Vec<History> = Vec::new();
            let mut j: usize = 0;
            while j < n
                invariant
                    j <= n,
                    text == Some(t),
                    json_array_len_at(t@, ""@) == Some(n as nat),
                    v@.len() == j,
                    forall|k: int| 0 <= k < j ==> entry_in(t@, k as nat) == Some(#[trigger] v@[k]@),
                decreases n - j,
            {
                let q = field(t, j, "query");
                let r = field(t, j, "response");
                let s = field(t, j, "timestamp");
                match (q, r, s) {
                    (Some(q), Some(r), Some(s)) => {
                        v.push(History { query: q, response: r, timestamp: s });
                    },
                    _ => {
                        assert(entry_in(t@, j as nat) is None);
                        assert(!(forall|k: nat| k < n ==> (#[trigger] entry_in(t@, k)) is Some));
                        return Err(
                            QueryError::PersistenceError(
                                String::from_str("a history entry is malformed"),
                            ),
                        );
                    },
                }
                j = j + 1;
            }
            assert forall|k: nat| k < n implies (#[trigger] entry_in(t@, k)) is Some by {
                assert(entry_in(t@, k as int as nat) == Some(v@[k as int]@));
            }
            assert(entry_views(v@) =~= Seq::new(
                n as nat,
                |k: int| entry_in(t@, k as nat)->Some_0,
            ));
            Ok(v)
        },
    }
}

/// The log `existing` with an entry for `query`, `response` and `timestamp`
/// added at its end, as the text to store; an error when `existing` is not a
/// log.
pub fn save(existing: Option<&str>, query: &str, response: &str, timestamp: &str) -> (r: Result<String, QueryError>)
    ensures
        match listed(existing) {
            Some(es) => (r matches Ok(t) && t@ == history_text(es.push((query@, response@, timestamp@)))
                && history_in(t@) == Some(es.push((query@, response@, timestamp@)))),
            None => r matches Err(QueryError::PersistenceError(_)),
        },
{
    let entries = match list(existing) {
        Err(e) => {
            return Err(e);
        },
        Ok(v) => v,
    };
    let ghost es = entry_views(entries@);
    let ghost all = es.push((query@, response@, timestamp@));
    let mut rows: Vec<Vec<String>> = Vec::new();
    let mut k: usize = 0;
    while k < entries.len()
        invariant
            k <= entries@.len(),
            es == entry_views(entries@),
            rows@.len() == k,
            forall|m: int|
                0 <= m < k ==> (#[trigger] rows@[m])@.len() == 3 && (
                    rows@[m]@[0]@,
                    rows@[m]@[1]@,
                    rows@[m]@[2]@,
                ) == es[m],
        decreases entries@.len() - k,
    {
        let h = &entries[k];
        rows.push(vec![h.query.clone(), h.response.clone(), h.timestamp.clone()]);
        k = k + 1;
    }
    rows.push(vec![String::from_str(query), String::from_str(response), String::from_str(timestamp)]);
    let keys = vec![String::from_str("query"), String::from_str("response"), String::from_str("timestamp")];
    proof {
        lemma_keys();
        assert(distinct_keys(string_views(keys@)));
    }
    let t = rows_json(&keys, &rows).unwrap();
            proof {
                assert(plain_key(keys@[0]@));
                assert(plain_key(keys@[1]@));
                assert(plain_key(keys@[2]@));
                assert forall|j: nat| j < all.len() implies (#[trigger] entry_in(t@, j)) == Some(all[j as int]) by {
                    assert(rows@[j as int]@[0]@ == all[j as int].0);
                    assert(rows@[j as int]@[1]@ == all[j as int].1);
                    assert(rows@[j as int]@[2]@ == all[j as int].2);
                }
                assert(Seq::new(all.len(), |j: int| entry_in(t@, j as nat)->Some_0) =~= all);
                assert(string_views(keys@) =~= history_keys());
                assert forall|j: int| 0 <= j < rows@.len() implies string_views(#[trigger] rows@[j]@)
                    =~= seq![all[j].0, all[j].1, all[j].2] by {
                    assert(rows@[j]@[0]@ == all[j].0);
                    assert(rows@[j]@[1]@ == all[j].1);
                    assert(rows@[j]@[2]@ == all[j].2);
                }
                assert(row_views(rows@) =~= all.map_values(|e: (Seq<char>, Seq<char>, Seq<char>)| seq![e.0, e.1, e.2]));
            }
            Ok(t)
}

} // verus!
