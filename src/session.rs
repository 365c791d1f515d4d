//! The decisions of one "query" run. The caller reads the files, talks to the
//! completion service and writes what it is told to write.
use vstd::prelude::*;
use vstd::string::StringExecFns;
use crate::completion::{interpret_reply, reply_outcome, OpenAIQuery};
use crate::config::{load, loaded, text_of};
use crate::error::QueryError;
use crate::history::{history_in, listed, save};

verus! {

/// The request for `query` under the configuration whose file text is
/// `config_text` (`None` when there is no such file).
pub fn start_query(config_text: Option<&str>, query: &str) -> (r: Result<OpenAIQuery, QueryError>)
    ensures
        match loaded(text_of(config_text)) {
            Ok(v) => (r matches Ok(q) && q.query@ == query@ && (q.api_key@, q.model@) == v),
            Err(e) => r == Err::<OpenAIQuery, QueryError>(e),
        },
{
    match load(config_text) {
        Err(e) => Err(e),
        Ok(c) => Ok(OpenAIQuery { query: String::from_str(query), api_key: c.api_key, model: c.model }),
    }
}

/// What a query run ends with: the answer to show, and the new history text to
/// store, if anything is to be stored.
pub struct QueryOutcome {
    pub answer: Result<String, QueryError>,
    pub history: Option<Result<String, QueryError>>,
}

/// Ends a query run from the service's reply, the current history text
/// (`None` when there is no history file) and the time of the run. An answer
/// is recorded in the history; a failure is not.
pub fn finish_query(
    reply: Result<(u16, Vec<u8>), String>,
    history: Option<&str>,
    query: &str,
    timestamp: &str,
) -> (r: QueryOutcome)
    ensures
        reply_outcome(reply, r.answer),
        r.answer is Err ==> r.history is None,
        r.answer matches Ok(a) ==> r.history matches Some(h) && match listed(history) {
            Some(es) => (h matches Ok(t) && history_in(t@) == Some(
                es.push((query@, a@, timestamp@)),
            )),
            None => h matches Err(QueryError::PersistenceError(_)),
        },
{
    match interpret_reply(reply) {
        Err(e) => QueryOutcome { answer: Err(e), history: None },
        Ok(a) => {
            let h = save(history, query, a.as_str(), timestamp);
            QueryOutcome { answer: Ok(a), history: Some(h) }
        },
    }
}

} // verus!
