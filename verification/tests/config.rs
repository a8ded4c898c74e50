use aia::config::{Config, ConfigError};

#[test]
fn valid_config_is_decoded() {
    let text = "openai_token = \"SECRET-REDACTED\"\nopenai_model = \"gpt-4o\"\n";
    let config = Config::read(text).expect("config should decode");
    assert_eq!(config.openai_token, "SECRET-REDACTED");
    assert_eq!(config.openai_model, "gpt-4o");
}

#[test]
fn missing_model_is_rejected() {
    let text = "openai_token = \"SECRET-REDACTED\"\n";
    assert_eq!(Config::read(text), Err(ConfigError::MissingField));
}

#[test]
fn missing_token_is_rejected() {
    let text = "openai_model = \"gpt-4o\"\n";
    assert_eq!(Config::read(text), Err(ConfigError::MissingField));
}

#[test]
fn non_string_token_is_rejected() {
    let text = "openai_token = 5\nopenai_model = \"gpt-4o\"\n";
    assert_eq!(Config::read(text), Err(ConfigError::MissingField));
}

#[test]
fn malformed_text_is_rejected_with_detail() {
    match Config::read("this is not a table =") {
        Err(ConfigError::Malformed { detail }) => assert!(!detail.is_empty()),
        other => panic!("expected a malformed-config error, got {:?}", other),
    }
}

#[test]
fn empty_token_fails_the_session_gate() {
    let text = "openai_token = \"\"\nopenai_model = \"gpt-4o\"\n";
    let config = Config::read(text).expect("config should decode");
    assert!(!config.has_token());
}

#[test]
fn set_token_passes_the_session_gate() {
    let config = Config {
        openai_token: "SECRET-REDACTED".to_string(),
        openai_model: "gpt-4o".to_string(),
    };
    assert!(config.has_token());
}
