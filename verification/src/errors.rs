//! Error types for configuration loading, matcher compilation and serving.

use vstd::prelude::*;

verus! {

/// Errors raised while turning declarative configuration into the compiled,
/// servable form. Variants that wrap a failure of an outside library carry
/// that library's error message as text.
#[derive(Debug)]
pub enum HttpPluginError {
    /// A response status code outside the valid range 100..=599.
    InvalidStatusCode(u16),
    /// A JSON value could not be parsed or serialized.
    SerdeJsonError(String),
    /// A file could not be read or written.
    IoError(String),
    /// A YAML document could not be parsed or serialized.
    YamlError(String),
    /// A regular expression failed to compile.
    RegexError(String),
    /// A header name holds a character outside the header-name token set.
    InvalidHeaderName(String),
    /// A header value holds a character the header-value rule refuses.
    InvalidHeaderValue(String),
    /// An HTTP method holds a character outside the method token set.
    InvalidMethod(String),
    /// A payload whose responses carry zero total weight.
    NoResponsesProvided,
    /// A response body template was rejected at registration.
    TemplateError(String),
    /// A URL could not be parsed.
    UrlParseError(String),
}

impl HttpPluginError {
    /// A short human-readable description of the error.
    pub fn message(&self) -> (r: String)
        ensures
            self is NoResponsesProvided ==> r@ == "No response configured for match"@,
    {
        match self {
            HttpPluginError::InvalidStatusCode(_) => String::from_str("Invalid status code"),
            HttpPluginError::SerdeJsonError(m) => m.clone(),
            HttpPluginError::IoError(m) => m.clone(),
            HttpPluginError::YamlError(m) => m.clone(),
            HttpPluginError::RegexError(m) => m.clone(),
            HttpPluginError::InvalidHeaderName(m) => m.clone(),
            HttpPluginError::InvalidHeaderValue(m) => m.clone(),
            HttpPluginError::InvalidMethod(m) => m.clone(),
            HttpPluginError::NoResponsesProvided => {
                String::from_str("No response configured for match")
            },
            HttpPluginError::TemplateError(m) => m.clone(),
            HttpPluginError::UrlParseError(m) => m.clone(),
        }
    }
}

/// Errors raised while resolving the tree of configuration files.
#[derive(Debug)]
pub enum ConfigError {
    /// A plugin definition that needs a config file but names none.
    PluginMissingConfigFile(String),
    /// A body payload names a sibling file whose contents were not supplied.
    MissingBodyFile(String),
    /// A plugin kind that is a schema placeholder and cannot be served.
    UnsupportedPluginSource(String),
}

/// Errors raised by a backend while handling one request.
#[derive(Debug)]
pub enum HttpBackendErr {
    /// The request body could not be assembled.
    UnableToReadBody(String),
}

/// Errors raised by the oldest static-plugin pipeline; kept for its callers.
#[derive(Debug)]
pub enum HttpStaticError {
    /// A response status code outside the valid range 100..=599.
    InvalidStatusCode(u16),
    /// A regular expression failed to compile.
    RegexError(String),
    /// No response was configured for a match rule.
    NoResponsesProvided,
}

} // verus!
