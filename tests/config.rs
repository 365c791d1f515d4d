use shellcmd::config::{load, Config};
use shellcmd::error::QueryError;

fn sample() -> Config {
    Config { api_key: "SECRET-REDACTED".to_string(), model: "gpt-3.5-turbo".to_string() }
}

#[test]
fn config_round_trip() {
    let c = sample();
    let text = c.to_json();
    assert_eq!(load(Some(&text)), Ok(c));
}

#[test]
fn config_round_trip_with_quotes() {
    let c = Config { api_key: "a\"b\\c/~".to_string(), model: "m\nn".to_string() };
    let text = c.to_json();
    assert_eq!(load(Some(&text)), Ok(c));
}

#[test]
fn config_text_is_json_object() {
    let text = sample().to_json();
    let v: serde_json::Value = serde_json::from_str(&text).unwrap();
    assert_eq!(v["api_key"], "SECRET-REDACTED");
    assert_eq!(v["model"], "gpt-3.5-turbo");
}

#[test]
fn missing_config_is_not_configured() {
    assert_eq!(load(None), Err(QueryError::NotConfigured));
}

#[test]
fn unparsable_config_is_invalid() {
    assert_eq!(load(Some("not json")), Err(QueryError::InvalidConfig));
    assert_eq!(load(Some("{\"api_key\": \"k\"}")), Err(QueryError::InvalidConfig));
    assert_eq!(load(Some("{\"api_key\": \"k\", \"model\": 3}")), Err(QueryError::InvalidConfig));
}

#[test]
fn empty_fields_are_invalid() {
    assert_eq!(load(Some("{\"api_key\": \"\", \"model\": \"m\"}")), Err(QueryError::InvalidConfig));
    assert_eq!(load(Some("{\"api_key\": \"k\", \"model\": \"\"}")), Err(QueryError::InvalidConfig));
}

#[test]
fn setup_input_is_trimmed() {
    assert_eq!(
        Config::from_input("  SECRET-REDACTED\n", " gpt-4\n"),
        Ok(Config { api_key: "SECRET-REDACTED".to_string(), model: "gpt-4".to_string() })
    );
    assert_eq!(Config::from_input("   \n", "gpt-4"), Err(QueryError::InvalidConfig));
    assert_eq!(Config::from_input("k", "\n"), Err(QueryError::InvalidConfig));
}

#[test]
fn config_text_is_the_same_each_time() {
    assert_eq!(sample().to_json(), sample().to_json());
}
