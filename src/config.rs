//! The saved credential and model.
use vstd::prelude::*;
use vstd::string::StringExecFns;
use crate::error::QueryError;
use crate::json::{json_object_text, string_views, distinct_keys, json_str_at, member_pointer, object_json, plain_key, str_at};
use crate::text::{trim, trimmed};

verus! {

/// The credential and the model used for every query.
#[derive(Debug, Clone, PartialEq, Eq)]
pub struct Config {
    pub api_key: String,
    pub model: String,
}

impl View for Config {
    type V = (Seq<char>, Seq<char>);

    open spec fn view(&self) -> (Seq<char>, Seq<char>) {
        (self.api_key@, self.model@)
    }
}

impl Config {
    /// Both fields are non-empty.
    pub open spec fn valid(&self) -> bool {
        self.api_key@.len() > 0 && self.model@.len() > 0
    }

    /// The configuration from what the user typed: each answer trimmed, and
    /// rejected when nothing is left of either.
    pub fn from_input(api_key: &str, model: &str) -> (r: Result<Config, QueryError>)
        ensures
            trimmed(api_key@).len() > 0 && trimmed(model@).len() > 0 ==> (r matches Ok(c)
                && c@ == (trimmed(api_key@), trimmed(model@))),
            !(trimmed(api_key@).len() > 0 && trimmed(model@).len() > 0) ==> r == Err::<
                Config,
                QueryError,
            >(QueryError::InvalidConfig),
    {
        let api_key = trim(api_key);
        let model = trim(model);
        if api_key.as_str().is_empty() || model.as_str().is_empty() {
            Err(QueryError::InvalidConfig)
        } else {
            Ok(Config { api_key, model })
        }
    }

    /// The configuration as JSON text, with members `api_key` and `model`.
    /// Loading the text gives the configuration back.
    pub fn to_json(&self) -> (r: String)
        ensures
            r@ == config_text(self@),
            loaded(Some(r@)) == if self.valid() {
                Ok::<(Seq<char>, Seq<char>), QueryError>(self@)
            } else {
                Err(QueryError::InvalidConfig)
            },
    {
        let keys = vec![String::from_str("api_key"), String::from_str("model")];
        let values = vec![self.api_key.clone(), self.model.clone()];
        proof {
            lemma_config_keys();
            assert(distinct_keys(string_views(keys@)));
        }
        let r = object_json(&keys, &values).unwrap();
        proof {
            assert(plain_key(keys@[0]@));
            assert(plain_key(keys@[1]@));
            assert(string_views(keys@) =~= seq!["api_key"@, "model"@]);
            assert(string_views(values@) =~= seq![self.api_key@, self.model@]);
        }
        r
    }
}

/// The text of the configuration file for a credential and a model.
pub open spec fn config_text(v: (Seq<char>, Seq<char>)) -> Seq<char> {
    json_object_text(seq!["api_key"@, "model"@], seq![v.0, v.1])
}

proof fn lemma_config_keys()
    ensures
        plain_key("api_key"@),
        plain_key("model"@),
        "api_key"@ != "model"@,
{
    reveal_strlit("api_key");
    reveal_strlit("model");
    assert("api_key"@[1] != "model"@[1]);
}

/// The credential and model that a configuration text holds, when both are
/// strings and neither is empty.
pub open spec fn config_in(text: Seq<char>) -> Option<(Seq<char>, Seq<char>)> {
    match (
        json_str_at(text, member_pointer("api_key"@)),
        json_str_at(text, member_pointer("model"@)),
    ) {
        (Some(k), Some(m)) => if k.len() > 0 && m.len() > 0 {
            Some((k, m))
        } else {
            None
        },
        _ => None,
    }
}

/// The text, when there is one.
pub open spec fn text_of(text: Option<&str>) -> Option<Seq<char>> {
    match text {
        Some(t) => Some(t@),
        None => None,
    }
}

/// The configuration that `load` reads from a configuration file's text
/// (`None` when there is no such file): its credential and model, or why
/// there is none.
pub open spec fn loaded(text: Option<Seq<char>>) -> Result<(Seq<char>, Seq<char>), QueryError> {
    match text {
        None => Err(QueryError::NotConfigured),
        Some(t) => match config_in(t) {
            Some(v) => Ok(v),
            None => Err(QueryError::InvalidConfig),
        },
    }
}

/// Reads a configuration from the text of the configuration file, `None` when
/// there is no such file.
pub fn load(text: Option<&str>) -> (r: Result<Config, QueryError>)
    ensures
        match loaded(text_of(text)) {
            Ok(v) => (r matches Ok(c) && c@ == v),
            Err(e) => r == Err::<Config, QueryError>(e),
        },
{
    match text {
        None => Err(QueryError::NotConfigured),
        Some(t) => {
            let api_key = str_at(t, "/api_key");
            let model = str_at(t, "/model");
            proof {
                reveal_strlit("/api_key");
                reveal_strlit("/model");
                reveal_strlit("api_key");
                reveal_strlit("model");
                reveal_strlit("/");
                assert(member_pointer("api_key"@) =~= "/api_key"@);
                assert(member_pointer("model"@) =~= "/model"@);
            }
            match (api_key, model) {
                (Some(k), Some(m)) => {
                    if k.as_str().is_empty() || m.as_str().is_empty() {
                        Err(QueryError::InvalidConfig)
                    } else {
                        Ok(Config { api_key: k, model: m })
                    }
                },
                _ => Err(QueryError::InvalidConfig),
            }
        },
    }
}

} // verus!
