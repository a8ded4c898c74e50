//! The session configuration: the provider credential and the model to
//! drive. The surrounding program reads the configuration file; this module
//! decodes its text and gates the session on a non-empty credential.

use vstd::prelude::*;

use crate::tomlval::{toml_doc_fields, toml_get_string, toml_parse, toml_value_fields};

verus! {

/// The two settings a session needs.
#[derive(Debug, Clone, PartialEq, Eq)]
pub struct Config {
    pub openai_token: String,
    pub openai_model: String,
}

/// Why a configuration text was rejected.
#[derive(Debug, Clone, PartialEq, Eq)]
pub enum ConfigError {
    /// The text is not a TOML document; the detail is the decoder's
    /// diagnostic.
    Malformed { detail: String },
    /// A required setting is absent or does not hold a string.
    MissingField,
}

impl Config {
    /// Decodes the configuration from the text of its file. Both settings
    /// must be present as strings; an empty credential is decoded as it
    /// stands and rejected later by the session gate.
    pub fn read(text: &str) -> (r: Result<Config, ConfigError>)
        ensures
            (toml_doc_fields(text@) is None) <==> (r matches Err(e) && e is Malformed),
            toml_doc_fields(text@) matches Some(m) ==> if m.contains_key("openai_token"@)
                && m.contains_key("openai_model"@) {
                r matches Ok(c) && c.openai_token@ == m["openai_token"@] && c.openai_model@
                    == m["openai_model"@]
            } else {
                r matches Err(e) && e is MissingField
            },
    {
        match toml_parse(text) {
            Err(detail) => Err(ConfigError::Malformed { detail }),
            Ok(v) => {
                match (toml_get_string(&v, "openai_token"), toml_get_string(&v, "openai_model")) {
                    (Some(openai_token), Some(openai_model)) => Ok(
                        Config { openai_token, openai_model },
                    ),
                    _ => Err(ConfigError::MissingField),
                }
            },
        }
    }

    /// The session gate: whether the credential is set. A session must end
    /// with a non-zero status before any provider call when this is false.
    pub fn has_token(&self) -> (r: bool)
        ensures
            r == (self.openai_token@.len() > 0),
    {
        !self.openai_token.as_str().is_empty()
    }
}

} // verus!
