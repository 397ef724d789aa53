//! Decisions of the long-running feed reader: which signal a parsed message
//! becomes, how errors of the one-shot command are reported, and how long to
//! wait before restarting the feed script.

use vstd::prelude::*;

use crate::text::{concat, string_from_str};

use super::command::CommandError;
use super::state::spec_after_signal;
use super::{FeedEvent, FeedMessage, FeedSignal, ParseFeedError};
use crate::model::NotificationView;

verus! {

/// First wait before restarting a feed script that exited, in seconds.
pub const BACKOFF_INITIAL_SECS: u64 = 1;

/// Longest wait before restarting a feed script, in seconds.
pub const BACKOFF_MAX_SECS: u64 = 30;

/// The signal forwarded for a parsed feed message: item snapshots and
/// `update` events carry their items, `reload` is passed on, and
/// `history_changed` is not forwarded.
pub open spec fn spec_signal_for(msg: FeedMessage) -> Option<FeedSignal> {
    match msg {
        FeedMessage::Items(items) => Some(FeedSignal::Items(items)),
        FeedMessage::Event(FeedEvent::Update { items }) => Some(FeedSignal::Items(items)),
        FeedMessage::Event(FeedEvent::Reload) => Some(FeedSignal::Reload),
        FeedMessage::Event(FeedEvent::HistoryChanged) => None,
    }
}

pub fn signal_for_message(msg: FeedMessage) -> (r: Option<FeedSignal>)
    ensures
        r == spec_signal_for(msg),
{
    match msg {
        FeedMessage::Items(items) => Some(FeedSignal::Items(items)),
        FeedMessage::Event(FeedEvent::Update { items }) => Some(FeedSignal::Items(items)),
        FeedMessage::Event(FeedEvent::Reload) => Some(FeedSignal::Reload),
        FeedMessage::Event(FeedEvent::HistoryChanged) => None,
    }
}

/// The wait after `secs`: doubled, at most `BACKOFF_MAX_SECS`.
pub fn next_backoff_secs(secs: u64) -> (r: u64)
    ensures
        r == if 2 * secs <= BACKOFF_MAX_SECS {
            2 * secs
        } else {
            BACKOFF_MAX_SECS as int
        },
{
    if secs <= BACKOFF_MAX_SECS / 2 {
        secs * 2
    } else {
        BACKOFF_MAX_SECS
    }
}

/// The feed error reported for a failed one-shot command.
pub fn map_command_err(err: CommandError) -> (r: ParseFeedError)
    ensures
        r is Provider,
        match err {
            CommandError::NoCommand => r->Provider_0@ == "provider command not configured"@,
            CommandError::Io(e) => r->Provider_0@ == "io: "@ + e@,
            CommandError::Spawn(e) => r->Provider_0@ == "spawn: "@ + e@,
            CommandError::Status { status, stderr } => r->Provider_0@ == "exit "@ + status@
                + ": "@ + stderr@,
        },
{
    match err {
        CommandError::NoCommand => ParseFeedError::Provider(
            string_from_str("provider command not configured"),
        ),
        CommandError::Io(e) => ParseFeedError::Provider(concat("io: ", e.as_str())),
        CommandError::Spawn(e) => ParseFeedError::Provider(concat("spawn: ", e.as_str())),
        CommandError::Status { status, stderr } => {
            let head = concat("exit ", status.as_str());
            let head = concat(head.as_str(), ": ");
            ParseFeedError::Provider(concat(head.as_str(), stderr.as_str()))
        },
    }
}

/// What a feed message does to the visible notifications once forwarded and
/// applied: snapshots and `update` events replace them with their items, a
/// `reload` keeps them, and `history_changed` is never forwarded.
pub proof fn law_message_effect_on_state(old: Seq<NotificationView>, msg: FeedMessage)
    ensures
        match msg {
            FeedMessage::Items(v) => spec_signal_for(msg) is Some && spec_after_signal(
                old,
                spec_signal_for(msg)->0,
            ) == v@,
            FeedMessage::Event(FeedEvent::Update { items }) => spec_signal_for(msg) is Some
                && spec_after_signal(old, spec_signal_for(msg)->0) == items@,
            FeedMessage::Event(FeedEvent::Reload) => spec_signal_for(msg) is Some
                && spec_after_signal(old, spec_signal_for(msg)->0) == old,
            FeedMessage::Event(FeedEvent::HistoryChanged) => spec_signal_for(msg) is None,
        },
{
}

} // verus!
