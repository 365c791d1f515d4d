//! What to send to the completion service, and what its reply means.
use vstd::prelude::*;
use vstd::string::StringExecFns;
use crate::error::QueryError;
use crate::json::{
    array_len_at, decimal, decimal_text, distinct_keys, json_array_len_at, json_error_of,
    json_quoted, json_rows_text, json_str_at, parse_error, quote, row_views, rows_json, str_at,
    string_views, utf8_decoded, utf8_text,
};
use crate::prompt::{build_messages, message_views, prompt_for, role_name, Message, Role};
use crate::text::{normalize, normalized};

verus! {

/// The completion endpoint.
pub const URI: &'static str = "https://api.openai.com/v1/chat/completions";

/// The diagnostic for a reply body that is not UTF-8 text.
pub const NOT_TEXT: &'static str = "the reply is not UTF-8 text";

/// The diagnostic for a JSON reply that is not a list of choices, each with a
/// message role and content.
pub const NO_CHOICE: &'static str = "the reply holds no list of choices with a message role and content";

/// One request for a command.
pub struct OpenAIQuery {
    /// The request in the user's words.
    pub query: String,
    /// The credential for the completion service.
    pub api_key: String,
    /// The model that should answer.
    pub model: String,
}

/// The rows `[role, content]` of a conversation.
pub open spec fn message_rows(m: Seq<(Role, Seq<char>)>) -> Seq<Seq<Seq<char>>> {
    m.map_values(|x: (Role, Seq<char>)| seq![role_name(x.0), x.1])
}

/// The request body: `{"model": model, "messages": [{"role": .., "content": ..}, ..]}`.
pub open spec fn request_text(model: Seq<char>, messages: Seq<(Role, Seq<char>)>) -> Seq<char> {
    "{\"model\":"@ + json_quoted(model) + ",\"messages\":"@ + json_rows_text(
        seq!["role"@, "content"@],
        message_rows(messages),
    ) + "}"@
}

impl OpenAIQuery {
    /// The conversation to send for this query.
    pub fn messages(&self) -> (r: Vec<Message>)
        ensures
            message_views(r@) == prompt_for(self.query@),
    {
        build_messages(self.query.as_str())
    }

    /// The value of the `Authorization` header: the credential as a bearer token.
    pub fn authorization(&self) -> (r: String)
        ensures
            r@ == "Bearer "@ + self.api_key@,
    {
        let r = String::from_str("Bearer ");
        r.concat(self.api_key.as_str())
    }

    /// The JSON body of the request: the model and the conversation.
    pub fn request_body(&self) -> (r: String)
        ensures
            r@ == request_text(self.model@, prompt_for(self.query@)),
    {
        let messages = self.messages();
        let mut rows: Vec<Vec<String>> = Vec::new();
        let mut k: usize = 0;
        while k < messages.len()
            invariant
                k <= messages@.len(),
                rows@.len() == k,
                forall|m: int|
                    0 <= m < k ==> (#[trigger] rows@[m])@.len() == 2 && string_views(rows@[m]@)
                        == seq![role_name(messages@[m].role), messages@[m].content@],
            decreases messages@.len() - k,
        {
            let m = &messages[k];
            let row = vec![String::from_str(m.role.name()), m.content.clone()];
            assert(string_views(row@) =~= seq![role_name(m.role), m.content@]);
            rows.push(row);
            k = k + 1;
        }
        let keys = vec![String::from_str("role"), String::from_str("content")];
        proof {
            reveal_strlit("role");
            reveal_strlit("content");
            assert("role"@[0] != "content"@[0]);
            assert(string_views(keys@) =~= seq!["role"@, "content"@]);
        }
        let list = rows_json(&keys, &rows).unwrap();
        let model = quote(self.model.as_str()).unwrap();
        proof {
            assert(row_views(rows@) =~= message_rows(message_views(messages@)));
        }
        let r = String::from_str("{\"model\":");
        let r = r.concat(model.as_str());
        let r = r.concat(",\"messages\":");
        let r = r.concat(list.as_str());
        r.concat("}")
    }
}

/// An HTTP status of success.
pub open spec fn success_status(status: u16) -> bool {
    200 <= status <= 299
}

/// The diagnostic for a reply with an HTTP status other than success.
pub open spec fn status_message(status: u16) -> Seq<char> {
    "the service answered with status "@ + decimal(status as nat)
}

/// The pointer to member `field` of the message of choice `j`.
pub open spec fn choice_pointer(j: nat, field: Seq<char>) -> Seq<char> {
    "/choices/"@ + decimal(j) + "/message/"@ + field
}

/// Choice `j` has a message with a role and a content, both strings.
pub open spec fn choice_ok(body: Seq<char>, j: nat) -> bool {
    json_str_at(body, choice_pointer(j, "role"@)) is Some && json_str_at(
        body,
        choice_pointer(j, "content"@),
    ) is Some
}

/// The content of the first choice, when the body holds a non-empty list of
/// choices, each with a message role and content.
pub open spec fn first_choice(body: Seq<char>) -> Option<Seq<char>> {
    match json_array_len_at(body, "/choices"@) {
        Some(n) => if n > 0 && forall|j: nat| j < n ==> #[trigger] choice_ok(body, j) {
            json_str_at(body, choice_pointer(0, "content"@))
        } else {
            None
        },
        None => None,
    }
}

/// `r` is an upstream error with the diagnostic `m`.
pub open spec fn upstream(r: Result<String, QueryError>, m: Seq<char>) -> bool {
    r matches Err(QueryError::UpstreamError(d)) && d@ == m
}

/// What a reply comes to: a failure to reach the service is a transport error;
/// a status other than success, a body that is not text, not JSON, or without
/// choices is an upstream error with its diagnostic; otherwise the answer is
/// the first choice's content, normalized.
pub open spec fn reply_outcome(reply: Result<(u16, Vec<u8>), String>, r: Result<String, QueryError>) -> bool {
    match reply {
        Err(e) => r == Err::<String, QueryError>(QueryError::TransportError(e)),
        Ok((status, bytes)) => if !success_status(status) {
            upstream(r, status_message(status))
        } else {
            match utf8_decoded(bytes@) {
                None => upstream(r, NOT_TEXT@),
                Some(body) => match json_error_of(body) {
                    Some(m) => upstream(r, m),
                    None => match first_choice(body) {
                        Some(c) => (r matches Ok(a) && a@ == normalized(c)),
                        None => upstream(r, NO_CHOICE@),
                    },
                },
            }
        },
    }
}

/// The pointer to member `field` of the message of choice `j`.
fn choice_field(j: usize, field: &str) -> (r: String)
    ensures
        r@ == choice_pointer(j as nat, field@),
{
    let r = String::from_str("/choices/");
    let r = r.concat(decimal_text(j).as_str());
    let r = r.concat("/message/");
    r.concat(field)
}

/// The content of the first choice of a reply body, as `first_choice` says.
fn first_choice_text(body: &str) -> (r: Option<String>)
    ensures
        r matches Some(c) ==> first_choice(body@) == Some(c@),
        r is None ==> first_choice(body@) is None,
{
    let n = match array_len_at(body, "/choices") {
        None => {
            return None;
        },
        Some(n) => n,
    };
    if n == 0 {
        return None;
    }
    let mut first: Option<String> = None;
    let mut j: usize = 0;
    while j < n
        invariant
            j <= n,
            json_array_len_at(body@, "/choices"@) == Some(n as nat),
            forall|k: nat| k < j ==> #[trigger] choice_ok(body@, k),
            j > 0 ==> (first matches Some(c) && json_str_at(body@, choice_pointer(0, "content"@))
                == Some(c@)),
        decreases n - j,
    {
        let role = str_at(body, choice_field(j, "role").as_str());
        let content = str_at(body, choice_field(j, "content").as_str());
        match (role, content) {
            (Some(_), Some(c)) => {
                if j == 0 {
                    first = Some(c);
                }
            },
            _ => {
                assert(!choice_ok(body@, j as nat));
                return None;
            },
        }
        j = j + 1;
    }
    first
}

/// Classifies what came back from one request, as `reply_outcome` says: the
/// status and bytes of the reply, or why the service could not be reached.
pub fn interpret_reply(reply: Result<(u16, Vec<u8>), String>) -> (r: Result<String, QueryError>)
    ensures
        reply_outcome(reply, r),
{
    match reply {
        Err(e) => Err(QueryError::TransportError(e)),
        Ok((status, bytes)) => {
            if status < 200 || status > 299 {
                let m = String::from_str("the service answered with status ");
                let m = m.concat(decimal_text(status as usize).as_str());
                return Err(QueryError::UpstreamError(m));
            }
            let body = match utf8_text(&bytes) {
                None => {
                    return Err(QueryError::UpstreamError(String::from_str(NOT_TEXT)));
                },
                Some(b) => b,
            };
            match parse_error(body.as_str()) {
                Some(m) => {
                    return Err(QueryError::UpstreamError(m));
                },
                None => {},
            }
            match first_choice_text(body.as_str()) {
                None => Err(QueryError::UpstreamError(String::from_str(NO_CHOICE))),
                Some(c) => Ok(normalize(c.as_str())),
            }
        },
    }
}

} // verus!
