//! Errors of configuration parsing.

use vstd::prelude::*;

verus! {

/// Why a configuration text was refused.
#[derive(Debug, Clone, PartialEq, Eq)]
pub enum ConfigError {
    /// A line is not `key = value`.
    InvalidLine { line: usize, message: String },
    /// A value does not parse for its key.
    InvalidValue { line: usize, key: String, value: String },
    /// A key is not a known setting.
    UnknownKey { line: usize, key: String },
}

/// A configuration error as values.
#[verifier::ext_equal]
pub enum ConfigErrorView {
    InvalidLine { line: nat, message: Seq<char> },
    InvalidValue { line: nat, key: Seq<char>, value: Seq<char> },
    UnknownKey { line: nat, key: Seq<char> },
}

impl View for ConfigError {
    type V = ConfigErrorView;

    open spec fn view(&self) -> ConfigErrorView {
        match self {
            ConfigError::InvalidLine { line, message } => ConfigErrorView::InvalidLine { line: *line as nat, message: message@ },
            ConfigError::InvalidValue { line, key, value } => ConfigErrorView::InvalidValue { line: *line as nat, key: key@, value: value@ },
            ConfigError::UnknownKey { line, key } => ConfigErrorView::UnknownKey { line: *line as nat, key: key@ },
        }
    }
}

} // verus!
