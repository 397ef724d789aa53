//! Runtime view types: subscriber wiring, resolved card style, and the
//! notifications a provider feed reports.

use vstd::prelude::*;

verus! {

/// Subscriber-wide configuration: placement, layer shell, and provider feed wiring.
#[derive(Debug, Clone, PartialEq, Eq)]
pub struct SubscriberSpec {
    // [stack]
    pub stack_gap: u32,
    // [placement]
    pub anchor: String,
    pub margin: u32,
    // [layer]
    pub layer: String,
    pub output: String,
    // [provider]
    pub feed_exec: Option<String>,
    pub command: Option<String>,
    pub socket: Option<String>,
}

/// Resolved visual style for a notification card.
///
/// Colors are stored as validated BGRA bytes. The font size is kept as the
/// IEEE-754 bit pattern of the configured size in points: this library only
/// carries it through to the renderer, which reads it back with
/// `f64::from_bits`.
#[derive(Debug, Clone, PartialEq, Eq)]
pub struct CardStyle {
    // colors
    pub background_bgra: [u8; 4],
    pub foreground_bgra: [u8; 4],
    pub border_bgra: [u8; 4],
    pub progress_bgra: [u8; 4],
    // font
    pub font_name: String,
    pub font_size_bits: u64,
    // layout
    pub width: u32,
    pub height: u32,
    pub padding: u32,
    pub margin: u32,
    // border
    pub border_size: u32,
    pub border_radius: u32,
    // text
    pub text_alignment: TextAlign,
    pub summary_template: String,
    pub body_template: String,
    pub app_template: Option<String>,
    pub id_template: Option<String>,
    // icons
    pub icon_size: i32,
    pub icon_position: IconPos,
    pub icon_theme: String,
    pub icon_default_name: String,
    pub progress_mode: ProgressMode,
    /// Bar thickness in pixels; `0` disables the bar even when a notification
    /// carries a `progress` value.
    pub progress_height: u32,
}

/// One notification from a provider feed `list` / subscribe `update` payload.
#[derive(Debug, Clone, PartialEq, Eq)]
pub struct NotificationView {
    pub id: u32,
    pub app_id: String,
    pub summary: String,
    pub body: String,
    pub urgency: Urgency,
    /// Freedesktop `expire_timeout` semantics: `-1` = server default, `0` = never
    /// expire, `>0` = milliseconds. `None` when the provider omits the field.
    pub timeout_ms: Option<i32>,
    pub has_actions: bool,
    pub icon: Option<IconRef>,
    /// FDN `value` hint (progress percent, `0..=100`); `None` when the
    /// provider omits it or reported it out of range.
    pub progress: Option<i32>,
    /// FDN `category` hint (e.g. `"email.arrived"`).
    pub category: Option<String>,
    /// FDN `desktop-entry` hint (desktop file id, no `.desktop` suffix).
    pub desktop_entry: Option<String>,
    /// Whether `body` may contain Pango markup the sender expects rendered
    /// rather than escaped plain text.
    pub body_markup: bool,
}

/// Icon reference from a provider feed payload (`icon.name` / `icon.path` /
/// raw pixel data).
///
/// `raw` (when present) is used directly; otherwise `path` is used directly;
/// otherwise `name` is looked up as an XDG icon-theme name under
/// `CardStyle::icon_theme`.
#[derive(Debug, Clone, PartialEq, Eq, Default)]
pub struct IconRef {
    pub name: Option<String>,
    pub path: Option<String>,
    pub raw: Option<RawIconData>,
}

/// Raw pixel buffer from the FDN `image-data` hint — used by senders with no
/// icon-theme name or on-disk file. `data_base64` is decoded at render time.
#[derive(Debug, Clone, PartialEq, Eq)]
pub struct RawIconData {
    pub width: i32,
    pub height: i32,
    /// Bytes per row, including any padding (may exceed `width * channels`).
    pub rowstride: i32,
    pub has_alpha: bool,
    pub bits_per_sample: i32,
    pub channels: i32,
    pub data_base64: String,
}

#[derive(Debug, Clone, Copy, PartialEq, Eq, Structural)]
pub enum Urgency {
    Low,
    Normal,
    Critical,
}

#[derive(Debug, Clone, Copy, PartialEq, Eq, Structural)]
pub enum TextAlign {
    Left,
    Center,
    Right,
}

#[derive(Debug, Clone, Copy, PartialEq, Eq, Structural)]
pub enum IconPos {
    Left,
    Right,
    Top,
    Bottom,
}

#[derive(Debug, Clone, Copy, PartialEq, Eq, Structural)]
pub enum ProgressMode {
    Over,
    Source,
}

impl CardStyle {
    /// A field-for-field copy.
    pub fn copy(&self) -> (r: CardStyle)
        ensures
            r == *self,
    {
        CardStyle {
            background_bgra: self.background_bgra,
            foreground_bgra: self.foreground_bgra,
            border_bgra: self.border_bgra,
            progress_bgra: self.progress_bgra,
            font_name: self.font_name.clone(),
            font_size_bits: self.font_size_bits,
            width: self.width,
            height: self.height,
            padding: self.padding,
            margin: self.margin,
            border_size: self.border_size,
            border_radius: self.border_radius,
            text_alignment: self.text_alignment,
            summary_template: self.summary_template.clone(),
            body_template: self.body_template.clone(),
            app_template: match &self.app_template {
                Some(t) => Some(t.clone()),
                None => None,
            },
            id_template: match &self.id_template {
                Some(t) => Some(t.clone()),
                None => None,
            },
            icon_size: self.icon_size,
            icon_position: self.icon_position,
            icon_theme: self.icon_theme.clone(),
            icon_default_name: self.icon_default_name.clone(),
            progress_mode: self.progress_mode,
            progress_height: self.progress_height,
        }
    }
}

impl RawIconData {
    /// A field-for-field copy.
    pub fn copy(&self) -> (r: RawIconData)
        ensures
            r == *self,
    {
        RawIconData {
            width: self.width,
            height: self.height,
            rowstride: self.rowstride,
            has_alpha: self.has_alpha,
            bits_per_sample: self.bits_per_sample,
            channels: self.channels,
            data_base64: self.data_base64.clone(),
        }
    }
}

impl IconRef {
    /// A field-for-field copy.
    pub fn copy(&self) -> (r: IconRef)
        ensures
            r == *self,
    {
        IconRef {
            name: match &self.name {
                Some(n) => Some(n.clone()),
                None => None,
            },
            path: match &self.path {
                Some(p) => Some(p.clone()),
                None => None,
            },
            raw: match &self.raw {
                Some(r) => Some(r.copy()),
                None => None,
            },
        }
    }
}

} // verus!
