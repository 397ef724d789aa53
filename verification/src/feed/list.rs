//! Framing of the output of the provider's `list` command.

use vstd::prelude::*;

use crate::model::NotificationView;
use crate::text::{chars_of, string_of, trim, trim_chars};

use super::FeedMessage;

verus! {

/// How the output of a `list` command is to be read.
#[derive(Debug, Clone, PartialEq, Eq)]
pub enum ListFrame {
    /// Nothing but whitespace: no notifications.
    Empty,
    /// A JSON array of notification objects (the CLI's pretty output).
    Array(String),
    /// One wire NDJSON line (an `items` response).
    Line(String),
}

/// Classify trimmed `list` output: empty, a JSON array (starts with `[`), or
/// one feed line.
pub fn frame_list_output(stdout: &str) -> (r: ListFrame)
    ensures
        ({
            let t = trim(stdout@);
            match r {
                ListFrame::Empty => t.len() == 0,
                ListFrame::Array(a) => t.len() > 0 && t[0] == '[' && a@ == t,
                ListFrame::Line(l) => t.len() > 0 && t[0] != '[' && l@ == t,
            }
        }),
{
    let v = chars_of(stdout);
    let t = trim_chars(&v);
    if t.len() == 0 {
        ListFrame::Empty
    } else if t[0] == '[' {
        ListFrame::Array(string_of(&t))
    } else {
        ListFrame::Line(string_of(&t))
    }
}

/// The items of a decoded `list` line: an `items` message gives its
/// notifications, anything else none.
pub fn items_of_message(msg: Option<FeedMessage>) -> (r: Vec<NotificationView>)
    ensures
        match msg {
            Some(FeedMessage::Items(items)) => r@ == items@,
            _ => r@.len() == 0,
        },
{
    match msg {
        Some(FeedMessage::Items(items)) => items,
        _ => Vec::new(),
    }
}

} // verus!
