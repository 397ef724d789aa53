//! Errors reported while loading and resolving the subscriber configuration.

use vstd::prelude::*;

use crate::color::ParseHexRgbaError;

verus! {

/// Why the configuration or theme could not be turned into settings.
#[derive(Debug, Clone, PartialEq, Eq)]
pub enum Error {
    /// A file could not be read; `message` is the operating system's account.
    Io { path: String, message: String },
    /// `config.toml` (or a fragment's `config.toml`) is not valid.
    Config(String),
    /// A theme file is not valid.
    Theme(String),
    /// A theme color is not `#RRGGBBAA`.
    InvalidHexRgba(ParseHexRgbaError),
    /// A required field of the base config is missing.
    MissingBaseField(String),
}

} // verus!
