//! Provider feed: NDJSON lines from a feed script (list responses and
//! subscribe events) decoded into notification views.
//!
//! A line is framed here (`frame_line`), its JSON text is read into the
//! wire records below (`RawLine`, `RawEvent`, `RawNotification`, `RawIcon`)
//! by the JSON reader of the application, and the records are decoded and
//! checked here (`decode_line`).

use vstd::prelude::*;

use crate::model::{IconRef, NotificationView, RawIconData, Urgency};
use crate::text::{chars_of, str_is, string_from_str, string_of, trim, trim_chars};

pub mod command;
pub mod exec;
pub mod list;
pub mod provider;
pub mod state;

pub use provider::ProviderSpec;
pub use state::{FeedSignalKind, NotificationState};

verus! {

/// Parsed NDJSON line from a provider feed script stdout (list response or subscribe event).
#[derive(Debug, Clone, PartialEq, Eq)]
pub enum FeedMessage {
    Items(Vec<NotificationView>),
    Event(FeedEvent),
}

/// Event pushed on a provider subscribe stream.
#[derive(Debug, Clone, PartialEq, Eq)]
pub enum FeedEvent {
    Update { items: Vec<NotificationView> },
    Reload,
    HistoryChanged,
}

/// What the feed reader hands to the Wayland loop.
#[derive(Debug, Clone, PartialEq, Eq)]
pub enum FeedSignal {
    /// A fresh snapshot of the visible notifications.
    Items(Vec<NotificationView>),
    /// The provider asked subscribers to re-read their config.
    Reload,
}

#[derive(Debug, Clone, PartialEq, Eq)]
pub enum ParseFeedError {
    /// The line is not valid JSON for the feed records (reader's message).
    Json(String),
    MissingField { field: String },
    UnknownType(String),
    UnknownEventKind(String),
    UnknownUrgency(String),
    /// The one-shot provider command failed.
    Provider(String),
}

/// One line of feed output as the JSON reader found it.
#[derive(Debug, Clone, PartialEq, Eq)]
pub struct RawLine {
    /// The `type` key.
    pub msg_type: Option<String>,
    pub items: Option<Vec<RawNotification>>,
    pub event: Option<RawEvent>,
}

/// The `event` object of an event line.
#[derive(Debug, Clone, PartialEq, Eq)]
pub struct RawEvent {
    pub kind: String,
    pub items: Vec<RawNotification>,
}

/// One notification object on the wire.
#[derive(Debug, Clone, PartialEq, Eq)]
pub struct RawNotification {
    pub id: u32,
    pub app_id: String,
    pub summary: String,
    pub body: String,
    pub urgency: String,
    pub timeout_ms: Option<i32>,
    pub has_actions: bool,
    pub icon: Option<RawIcon>,
    pub progress: Option<i64>,
    pub category: Option<String>,
    pub desktop_entry: Option<String>,
    pub body_markup: bool,
}

/// The `icon` object on the wire: a theme name, a file path, and/or the
/// fields of a raw pixel buffer.
#[derive(Debug, Clone, PartialEq, Eq)]
pub struct RawIcon {
    pub name: Option<String>,
    pub path: Option<String>,
    pub width: Option<i32>,
    pub height: Option<i32>,
    pub rowstride: Option<i32>,
    pub has_alpha: bool,
    pub bits_per_sample: Option<i32>,
    pub channels: Option<i32>,
    pub data: Option<String>,
}

/// The urgency a wire word names.
pub open spec fn spec_urgency(s: Seq<char>) -> Option<Urgency> {
    if s == "low"@ {
        Some(Urgency::Low)
    } else if s == "normal"@ {
        Some(Urgency::Normal)
    } else if s == "critical"@ {
        Some(Urgency::Critical)
    } else {
        None
    }
}

/// The raw pixel buffer a wire icon carries: present when its size, stride,
/// channel count and data are all given; samples default to 8 bits.
pub open spec fn spec_raw_icon(icon: RawIcon) -> Option<RawIconData> {
    if icon.width is Some && icon.height is Some && icon.rowstride is Some && icon.channels is Some
        && icon.data is Some {
        Some(
            RawIconData {
                width: icon.width->0,
                height: icon.height->0,
                rowstride: icon.rowstride->0,
                has_alpha: icon.has_alpha,
                bits_per_sample: match icon.bits_per_sample {
                    Some(b) => b,
                    None => 8,
                },
                channels: icon.channels->0,
                data_base64: icon.data->0,
            },
        )
    } else {
        None
    }
}

pub open spec fn spec_icon(icon: RawIcon) -> IconRef {
    IconRef { name: icon.name, path: icon.path, raw: spec_raw_icon(icon) }
}

/// The progress percent kept from the wire: only values in `0..=100`.
pub open spec fn spec_progress(p: Option<i64>) -> Option<i32> {
    match p {
        Some(v) => if 0 <= v <= 100 {
            Some(v as i32)
        } else {
            None
        },
        None => None,
    }
}

/// The view a wire notification decodes to; an unknown urgency word is refused.
pub open spec fn spec_decode_notification(raw: RawNotification) -> Result<
    NotificationView,
    ParseFeedError,
> {
    match spec_urgency(raw.urgency@) {
        None => Err(ParseFeedError::UnknownUrgency(raw.urgency)),
        Some(u) => Ok(
            NotificationView {
                id: raw.id,
                app_id: raw.app_id,
                summary: raw.summary,
                body: raw.body,
                urgency: u,
                timeout_ms: raw.timeout_ms,
                has_actions: raw.has_actions,
                icon: match raw.icon {
                    Some(i) => Some(spec_icon(i)),
                    None => None,
                },
                progress: spec_progress(raw.progress),
                category: raw.category,
                desktop_entry: raw.desktop_entry,
                body_markup: raw.body_markup,
            },
        ),
    }
}

/// The views of a list of wire notifications, in order; the first
/// notification that is refused decides the error.
pub open spec fn spec_decode_all(raws: Seq<RawNotification>) -> Result<
    Seq<NotificationView>,
    ParseFeedError,
>
    decreases raws.len(),
{
    if raws.len() == 0 {
        Ok(Seq::empty())
    } else {
        match spec_decode_notification(raws[0]) {
            Err(e) => Err(e),
            Ok(v) => match spec_decode_all(raws.drop_first()) {
                Ok(vs) => Ok(seq![v] + vs),
                Err(e) => Err(e),
            },
        }
    }
}

/// A `Vec` result against a sequence result.
pub open spec fn vec_result_is<T>(
    r: Result<Vec<T>, ParseFeedError>,
    e: Result<Seq<T>, ParseFeedError>,
) -> bool {
    match e {
        Ok(vs) => r is Ok && r->Ok_0@ == vs,
        Err(err) => r == Err::<Vec<T>, ParseFeedError>(err),
    }
}

/// The event a wire event object decodes to.
pub open spec fn event_result_is(
    r: Result<FeedEvent, ParseFeedError>,
    raw: RawEvent,
) -> bool {
    if raw.kind@ == "update"@ {
        match spec_decode_all(raw.items@) {
            Ok(vs) => r is Ok && r->Ok_0 is Update && r->Ok_0->items@ == vs,
            Err(e) => r == Err::<FeedEvent, ParseFeedError>(e),
        }
    } else if raw.kind@ == "reload"@ {
        r == Ok::<FeedEvent, ParseFeedError>(FeedEvent::Reload)
    } else if raw.kind@ == "history_changed"@ {
        r == Ok::<FeedEvent, ParseFeedError>(FeedEvent::HistoryChanged)
    } else {
        r == Err::<FeedEvent, ParseFeedError>(ParseFeedError::UnknownEventKind(raw.kind))
    }
}

/// The message a whole feed line decodes to: `items` lines give a snapshot
/// (no `items` key means an empty one), `event` lines an event, lines
/// without a `type` (handshakes, command replies) nothing, and any other
/// `type` is refused.
pub open spec fn line_result_is(
    r: Result<Option<FeedMessage>, ParseFeedError>,
    raw: RawLine,
) -> bool {
    match raw.msg_type {
        None => r == Ok::<Option<FeedMessage>, ParseFeedError>(None),
        Some(t) => if t@ == "items"@ {
            let raws = match raw.items {
                Some(v) => v@,
                None => Seq::empty(),
            };
            match spec_decode_all(raws) {
                Ok(vs) => r is Ok && r->Ok_0 is Some && r->Ok_0->0 is Items && r->Ok_0->0->Items_0@
                    == vs,
                Err(e) => r == Err::<Option<FeedMessage>, ParseFeedError>(e),
            }
        } else if t@ == "event"@ {
            match raw.event {
                None => r is Err && r->Err_0 is MissingField && r->Err_0->field@ == "event"@,
                Some(ev) => match r {
                    Ok(Some(FeedMessage::Event(e))) => event_result_is(
                        Ok::<FeedEvent, ParseFeedError>(e),
                        ev,
                    ),
                    Ok(_) => false,
                    Err(e) => event_result_is(Err::<FeedEvent, ParseFeedError>(e), ev),
                },
            }
        } else {
            r == Err::<Option<FeedMessage>, ParseFeedError>(ParseFeedError::UnknownType(t))
        },
    }
}

/// The urgency named by a wire word.
pub fn parse_urgency(raw: String) -> (r: Result<Urgency, ParseFeedError>)
    ensures
        match spec_urgency(raw@) {
            Some(u) => r == Ok::<Urgency, ParseFeedError>(u),
            None => r == Err::<Urgency, ParseFeedError>(ParseFeedError::UnknownUrgency(raw)),
        },
{
    if str_is(raw.as_str(), "low") {
        Ok(Urgency::Low)
    } else if str_is(raw.as_str(), "normal") {
        Ok(Urgency::Normal)
    } else if str_is(raw.as_str(), "critical") {
        Ok(Urgency::Critical)
    } else {
        Err(ParseFeedError::UnknownUrgency(raw))
    }
}

fn decode_icon(icon: RawIcon) -> (r: IconRef)
    ensures
        r == spec_icon(icon),
{
    let raw = match (icon.width, icon.height, icon.rowstride, icon.channels, icon.data) {
        (Some(width), Some(height), Some(rowstride), Some(channels), Some(data)) => Some(
            RawIconData {
                width,
                height,
                rowstride,
                has_alpha: icon.has_alpha,
                bits_per_sample: match icon.bits_per_sample {
                    Some(b) => b,
                    None => 8,
                },
                channels,
                data_base64: data,
            },
        ),
        _ => None,
    };
    IconRef { name: icon.name, path: icon.path, raw }
}

fn decode_progress(p: Option<i64>) -> (r: Option<i32>)
    ensures
        r == spec_progress(p),
{
    match p {
        Some(v) => if 0 <= v && v <= 100 {
            Some(v as i32)
        } else {
            None
        },
        None => None,
    }
}

/// Decode one wire notification.
pub fn decode_notification(raw: RawNotification) -> (r: Result<NotificationView, ParseFeedError>)
    ensures
        r == spec_decode_notification(raw),
{
    let ghost old_raw = raw;
    let urgency = match parse_urgency(raw.urgency) {
        Ok(u) => u,
        Err(e) => return Err(e),
    };
    let icon = match raw.icon {
        Some(i) => Some(decode_icon(i)),
        None => None,
    };
    Ok(
        NotificationView {
            id: raw.id,
            app_id: raw.app_id,
            summary: raw.summary,
            body: raw.body,
            urgency,
            timeout_ms: raw.timeout_ms,
            has_actions: raw.has_actions,
            icon,
            progress: decode_progress(raw.progress),
            category: raw.category,
            desktop_entry: raw.desktop_entry,
            body_markup: raw.body_markup,
        },
    )
}

proof fn lemma_decode_all_step(raws: Seq<RawNotification>, k: int)
    requires
        0 <= k < raws.len(),
    ensures
        spec_decode_all(raws.subrange(k, raws.len() as int)) == (match spec_decode_notification(
            raws[k],
        ) {
            Err(e) => Err(e),
            Ok(v) => match spec_decode_all(raws.subrange(k + 1, raws.len() as int)) {
                Ok(vs) => Ok(seq![v] + vs),
                Err(e) => Err(e),
            },
        }),
{
    let s = raws.subrange(k, raws.len() as int);
    assert(s[0] == raws[k]);
    assert(s.drop_first() =~= raws.subrange(k + 1, raws.len() as int));
}

/// Decode a list of wire notifications, in order, stopping at the first refusal.
pub fn decode_notifications(raws: Vec<RawNotification>) -> (r: Result<
    Vec<NotificationView>,
    ParseFeedError,
>)
    ensures
        vec_result_is(r, spec_decode_all(raws@)),
{
    let ghost orig = raws@;
    let n = raws.len();
    let mut rest = raws;
    let mut out: Vec<NotificationView> = Vec::new();
    let mut k: usize = 0;
    while k < n
        invariant
            n == orig.len(),
            orig == raws@,
            k <= n,
            rest@ == orig.subrange(k as int, n as int),
            spec_decode_all(orig) == (match spec_decode_all(orig.subrange(k as int, n as int)) {
                Ok(vs) => Ok(out@ + vs),
                Err(e) => Err(e),
            }),
        decreases n - k,
    {
        proof {
            lemma_decode_all_step(orig, k as int);
        }
        let raw = rest.remove(0);
        assert(raw == orig[k as int]);
        match decode_notification(raw) {
            Ok(v) => {
                proof {
                    let tail = spec_decode_all(orig.subrange(k + 1, n as int));
                    if tail is Ok {
                        assert(out@.push(v) + tail->Ok_0 =~= out@ + (seq![v] + tail->Ok_0));
                    }
                }
                out.push(v);
            },
            Err(e) => {
                assert(spec_decode_all(orig.subrange(k as int, n as int)) == Err::<
                    Seq<NotificationView>,
                    ParseFeedError,
                >(e));
                assert(spec_decode_all(orig) == Err::<Seq<NotificationView>, ParseFeedError>(e));
                return Err(e);
            },
        }
        k = k + 1;
        assert(rest@ =~= orig.subrange(k as int, n as int));
    }
    proof {
        assert(orig.subrange(n as int, n as int) =~= Seq::<RawNotification>::empty());
        assert(out@ + Seq::<NotificationView>::empty() =~= out@);
    }
    Ok(out)
}

/// Decode a wire event object.
pub fn decode_event(raw: RawEvent) -> (r: Result<FeedEvent, ParseFeedError>)
    ensures
        event_result_is(r, raw),
{
    if str_is(raw.kind.as_str(), "update") {
        match decode_notifications(raw.items) {
            Ok(items) => Ok(FeedEvent::Update { items }),
            Err(e) => Err(e),
        }
    } else if str_is(raw.kind.as_str(), "reload") {
        Ok(FeedEvent::Reload)
    } else if str_is(raw.kind.as_str(), "history_changed") {
        Ok(FeedEvent::HistoryChanged)
    } else {
        Err(ParseFeedError::UnknownEventKind(raw.kind))
    }
}

/// Decode a whole feed line.
pub fn decode_line(raw: RawLine) -> (r: Result<Option<FeedMessage>, ParseFeedError>)
    ensures
        line_result_is(r, raw),
{
    match raw.msg_type {
        None => Ok(None),
        Some(t) => {
            if str_is(t.as_str(), "items") {
                let raws = match raw.items {
                    Some(v) => v,
                    None => Vec::new(),
                };
                match decode_notifications(raws) {
                    Ok(items) => Ok(Some(FeedMessage::Items(items))),
                    Err(e) => Err(e),
                }
            } else if str_is(t.as_str(), "event") {
                match raw.event {
                    None => Err(ParseFeedError::MissingField { field: string_from_str("event") }),
                    Some(ev) => match decode_event(ev) {
                        Ok(e) => Ok(Some(FeedMessage::Event(e))),
                        Err(e) => Err(e),
                    },
                }
            } else {
                Err(ParseFeedError::UnknownType(t))
            }
        },
    }
}

/// The trimmed text of a feed line, or `None` when it is blank.
pub fn frame_line(line: &str) -> (r: Option<String>)
    ensures
        match r {
            None => trim(line@).len() == 0,
            Some(t) => trim(line@).len() > 0 && t@ == trim(line@),
        },
{
    let v = chars_of(line);
    let t = trim_chars(&v);
    if t.len() == 0 {
        None
    } else {
        Some(string_of(&t))
    }
}

/// A wire notification with a known urgency word decodes, and the view keeps
/// what the wire said: the same id, texts, timeout, flags and hints, the
/// urgency the word names, and an icon with the wire icon's name and path;
/// a raw pixel buffer comes along exactly when the wire gives its size,
/// stride, channels and data. A progress value is kept only within 0..=100.
pub proof fn law_decoded_view_keeps_the_wire(raw: RawNotification)
    ensures
        (spec_urgency(raw.urgency@) is None) <==> (spec_decode_notification(raw) is Err),
        spec_decode_notification(raw) matches Ok(v) ==> {
            &&& v.id == raw.id
            &&& v.app_id == raw.app_id
            &&& v.summary == raw.summary
            &&& v.body == raw.body
            &&& (raw.urgency@ == "low"@ ==> v.urgency == Urgency::Low)
            &&& (raw.urgency@ == "normal"@ ==> v.urgency == Urgency::Normal)
            &&& (raw.urgency@ == "critical"@ ==> v.urgency == Urgency::Critical)
            &&& v.timeout_ms == raw.timeout_ms
            &&& v.has_actions == raw.has_actions
            &&& v.category == raw.category
            &&& v.desktop_entry == raw.desktop_entry
            &&& v.body_markup == raw.body_markup
            &&& (raw.icon is None <==> v.icon is None)
            &&& (raw.icon matches Some(i) ==> {
                let ic = v.icon->0;
                &&& ic.name == i.name
                &&& ic.path == i.path
                &&& (ic.raw is Some <==> (i.width is Some && i.height is Some && i.rowstride
                    is Some && i.channels is Some && i.data is Some))
                &&& (ic.raw matches Some(d) ==> d.width == i.width->0 && d.height
                    == i.height->0 && d.rowstride == i.rowstride->0 && d.channels
                    == i.channels->0 && d.has_alpha == i.has_alpha && d.data_base64
                    == i.data->0)
            })
            &&& (raw.progress is Some && 0 <= raw.progress->0 <= 100 ==> v.progress == Some(
                raw.progress->0 as i32,
            ))
            &&& (raw.progress is Some && !(0 <= raw.progress->0 <= 100) ==> v.progress is None)
            &&& (raw.progress is None ==> v.progress is None)
        },
{
    reveal_strlit("low");
    reveal_strlit("normal");
    reveal_strlit("critical");
    assert("low"@ != "normal"@ && "low"@ != "critical"@ && "normal"@ != "critical"@) by {
        assert("low"@.len() != "normal"@.len());
        assert("low"@.len() != "critical"@.len());
        assert("normal"@.len() != "critical"@.len());
    }
    if raw.icon is Some {
        let i = raw.icon->0;
        let ic = spec_icon(i);
        assert(ic.name == i.name && ic.path == i.path);
    }
}

} // verus!
