//! Provider connector settings from the `[provider]` config table.

use vstd::prelude::*;

use crate::model::SubscriberSpec;

verus! {

/// Provider connector paths from poshanka config (`[provider]`).
#[derive(Debug, Clone, Default, PartialEq, Eq)]
pub struct ProviderSpec {
    /// Long-running feed script (`sh -c`).
    pub feed_exec: Option<String>,
    /// One-shot CLI binary (`list`, `close`, `activate`, `input`, …).
    pub command: Option<String>,
    /// Optional socket path forwarded as `--socket` before subcommand args.
    pub socket: Option<String>,
}

/// A copy of an optional string.
pub fn copy_opt_string(o: &Option<String>) -> (r: Option<String>)
    ensures
        r == *o,
{
    match o {
        Some(s) => Some(s.clone()),
        None => None,
    }
}

impl ProviderSpec {
    /// Whether any feed source (a feed script or a one-shot command) is configured.
    pub fn has_feed(&self) -> (r: bool)
        ensures
            r == (self.feed_exec is Some || self.command is Some),
    {
        self.feed_exec.is_some() || self.command.is_some()
    }

    /// The provider wiring of a subscriber spec.
    pub fn from_subscriber(spec: &SubscriberSpec) -> (r: ProviderSpec)
        ensures
            r.feed_exec == spec.feed_exec,
            r.command == spec.command,
            r.socket == spec.socket,
    {
        ProviderSpec {
            feed_exec: copy_opt_string(&spec.feed_exec),
            command: copy_opt_string(&spec.command),
            socket: copy_opt_string(&spec.socket),
        }
    }
}

} // verus!
