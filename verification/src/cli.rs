//! Command-line options.

use vstd::prelude::*;

use crate::config::{default_config_path, spec_config_dir};
use crate::paths::join;
use crate::text::string_from_str;

verus! {

/// Options of the `poshanka` binary.
#[derive(Debug, Clone, PartialEq, Eq, Default)]
pub struct Cli {
    /// Path to `config.toml` (`--config PATH`); the XDG location when absent.
    pub config: Option<String>,
}

impl Cli {
    /// The config file to read: the one given with `--config`, else
    /// `config.toml` in the config directory that `XDG_CONFIG_HOME` and
    /// `HOME` (their values, `None` where unset) point to.
    pub fn config_path(&self, xdg_config_home: Option<&str>, home: Option<&str>) -> (r: String)
        ensures
            r@ == match self.config {
                Some(c) => c@,
                None => join(
                    spec_config_dir(
                        match xdg_config_home {
                            Some(x) => Some(x@),
                            None => None,
                        },
                        match home {
                            Some(h) => Some(h@),
                            None => None,
                        },
                    ),
                    "config.toml"@,
                ),
            },
    {
        match &self.config {
            Some(c) => string_from_str(c.as_str()),
            None => default_config_path(xdg_config_home, home),
        }
    }
}

} // verus!
