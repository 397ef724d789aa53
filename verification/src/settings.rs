//! Runtime settings resolved from the config and theme, and the per-notification
//! card style: override fragments matched by app and urgency, laid over the
//! base theme from the least to the most specific.

use vstd::prelude::*;

use crate::color::{parse_hex_rgba_to_bgra, spec_parse_hex_bgra, ParseHexRgbaError};
use crate::config::{layer_name, Config, OverrideMeta, OverrideType, UrgencyLevel};
use crate::error::Error;
use crate::feed::provider::copy_opt_string;
use crate::model::{
    CardStyle, IconPos, NotificationView, ProgressMode, SubscriberSpec, TextAlign, Urgency,
};
use crate::text::{ascii_lower_seq, str_is, trim, trim_end, trim_start};
use crate::wayland::session::{spec_parse_layer, LayerKind};
use crate::theme::{
    spec_apply_fragment, FragmentTheme, IconPosition, Theme, TextAlignment,
};

verus! {

/// Bar thickness given to every card style: the theme has no key for it.
pub const PROGRESS_HEIGHT: u32 = 4;

/// What the subscriber needs at start: stack/placement/provider wiring and
/// the base card style.
#[derive(Debug, Clone, PartialEq, Eq)]
pub struct Settings {
    pub subscriber: SubscriberSpec,
    pub style: CardStyle,
}

/// An urgency fragment nested inside an app fragment.
#[derive(Debug, Clone, PartialEq, Eq)]
pub struct NestedOverride {
    pub meta: OverrideMeta,
    pub theme: FragmentTheme,
}

/// An override fragment as read from disk: its `[override]` header, its
/// theme patch, and (for an app fragment) its nested urgency fragments.
#[derive(Debug, Clone, PartialEq, Eq)]
pub struct LoadedOverride {
    pub meta: OverrideMeta,
    pub theme: FragmentTheme,
    pub nested: Vec<NestedOverride>,
}

// ── mapping between config and model enums ──────────────────────────────────

pub open spec fn spec_urgency_level(u: Urgency) -> UrgencyLevel {
    match u {
        Urgency::Low => UrgencyLevel::Low,
        Urgency::Normal => UrgencyLevel::Normal,
        Urgency::Critical => UrgencyLevel::Critical,
    }
}

/// The config's name for a notification urgency.
pub fn to_urgency_level(urgency: Urgency) -> (r: UrgencyLevel)
    ensures
        r == spec_urgency_level(urgency),
{
    match urgency {
        Urgency::Low => UrgencyLevel::Low,
        Urgency::Normal => UrgencyLevel::Normal,
        Urgency::Critical => UrgencyLevel::Critical,
    }
}

pub open spec fn spec_text_align(a: TextAlignment) -> TextAlign {
    match a {
        TextAlignment::Left => TextAlign::Left,
        TextAlignment::Center => TextAlign::Center,
        TextAlignment::Right => TextAlign::Right,
    }
}

pub open spec fn spec_icon_pos(p: IconPosition) -> IconPos {
    match p {
        IconPosition::Left => IconPos::Left,
        IconPosition::Right => IconPos::Right,
        IconPosition::Top => IconPos::Top,
        IconPosition::Bottom => IconPos::Bottom,
    }
}

pub open spec fn spec_progress_mode(m: crate::theme::ProgressMode) -> ProgressMode {
    match m {
        crate::theme::ProgressMode::Over => ProgressMode::Over,
        crate::theme::ProgressMode::Source => ProgressMode::Source,
    }
}

fn text_align(a: TextAlignment) -> (r: TextAlign)
    ensures
        r == spec_text_align(a),
{
    match a {
        TextAlignment::Left => TextAlign::Left,
        TextAlignment::Center => TextAlign::Center,
        TextAlignment::Right => TextAlign::Right,
    }
}

fn icon_pos(p: IconPosition) -> (r: IconPos)
    ensures
        r == spec_icon_pos(p),
{
    match p {
        IconPosition::Left => IconPos::Left,
        IconPosition::Right => IconPos::Right,
        IconPosition::Top => IconPos::Top,
        IconPosition::Bottom => IconPos::Bottom,
    }
}

fn progress_mode(m: crate::theme::ProgressMode) -> (r: ProgressMode)
    ensures
        r == spec_progress_mode(m),
{
    match m {
        crate::theme::ProgressMode::Over => ProgressMode::Over,
        crate::theme::ProgressMode::Source => ProgressMode::Source,
    }
}

// ── theme → card style ───────────────────────────────────────────────────────

/// The first theme color, in the order background, foreground, border,
/// progress, that is not `#RRGGBBAA`, with the reason.
pub open spec fn spec_style_error(t: Theme) -> Option<ParseHexRgbaError> {
    match spec_parse_hex_bgra(t.colors.background@) {
        Err(e) => Some(e),
        Ok(_) => match spec_parse_hex_bgra(t.colors.foreground@) {
            Err(e) => Some(e),
            Ok(_) => match spec_parse_hex_bgra(t.colors.border@) {
                Err(e) => Some(e),
                Ok(_) => match spec_parse_hex_bgra(t.colors.progress@) {
                    Err(e) => Some(e),
                    Ok(_) => None,
                },
            },
        },
    }
}

/// `s` is the card style that theme `t` describes: its colors in BGRA
/// order, and every other field carried over from the matching theme key.
pub open spec fn style_of_theme(s: CardStyle, t: Theme) -> bool {
    &&& spec_parse_hex_bgra(t.colors.background@) == Ok::<Seq<u8>, ParseHexRgbaError>(
        s.background_bgra@,
    )
    &&& spec_parse_hex_bgra(t.colors.foreground@) == Ok::<Seq<u8>, ParseHexRgbaError>(
        s.foreground_bgra@,
    )
    &&& spec_parse_hex_bgra(t.colors.border@) == Ok::<Seq<u8>, ParseHexRgbaError>(
        s.border_bgra@,
    )
    &&& spec_parse_hex_bgra(t.colors.progress@) == Ok::<Seq<u8>, ParseHexRgbaError>(
        s.progress_bgra@,
    )
    &&& s.font_name == t.font.name
    &&& s.font_size_bits == t.font.size_bits
    &&& s.width == t.layout.width
    &&& s.height == t.layout.height
    &&& s.padding == t.layout.padding
    &&& s.margin == t.layout.margin
    &&& s.border_size == t.border.size
    &&& s.border_radius == t.border.radius
    &&& s.text_alignment == spec_text_align(t.text.alignment)
    &&& s.summary_template == t.text.summary
    &&& s.body_template == t.text.body
    &&& s.app_template == t.text.app
    &&& s.id_template == t.text.id
    &&& s.icon_size == t.icons.size
    &&& s.icon_position == spec_icon_pos(t.icons.position)
    &&& s.icon_theme == t.icons.theme
    &&& s.icon_default_name@ == Seq::<char>::empty()
    &&& s.progress_mode == spec_progress_mode(t.progress.mode)
    &&& s.progress_height == PROGRESS_HEIGHT
}

/// The card style a theme describes, or the first invalid color's error.
pub fn card_style_from_theme(theme: &Theme) -> (r: Result<CardStyle, ParseHexRgbaError>)
    ensures
        match spec_style_error(*theme) {
            Some(e) => r == Err::<CardStyle, ParseHexRgbaError>(e),
            None => r is Ok && style_of_theme(r->Ok_0, *theme),
        },
{
    let background_bgra = match parse_hex_rgba_to_bgra(theme.colors.background.as_str()) {
        Ok(c) => c,
        Err(e) => return Err(e),
    };
    let foreground_bgra = match parse_hex_rgba_to_bgra(theme.colors.foreground.as_str()) {
        Ok(c) => c,
        Err(e) => return Err(e),
    };
    let border_bgra = match parse_hex_rgba_to_bgra(theme.colors.border.as_str()) {
        Ok(c) => c,
        Err(e) => return Err(e),
    };
    let progress_bgra = match parse_hex_rgba_to_bgra(theme.colors.progress.as_str()) {
        Ok(c) => c,
        Err(e) => return Err(e),
    };
    Ok(
        CardStyle {
            background_bgra,
            foreground_bgra,
            border_bgra,
            progress_bgra,
            font_name: theme.font.name.clone(),
            font_size_bits: theme.font.size_bits,
            width: theme.layout.width,
            height: theme.layout.height,
            padding: theme.layout.padding,
            margin: theme.layout.margin,
            border_size: theme.border.size,
            border_radius: theme.border.radius,
            text_alignment: text_align(theme.text.alignment),
            summary_template: theme.text.summary.clone(),
            body_template: theme.text.body.clone(),
            app_template: copy_opt_string(&theme.text.app),
            id_template: copy_opt_string(&theme.text.id),
            icon_size: theme.icons.size,
            icon_position: icon_pos(theme.icons.position),
            icon_theme: theme.icons.theme.clone(),
            icon_default_name: String::new(),
            progress_mode: progress_mode(theme.progress.mode),
            progress_height: PROGRESS_HEIGHT,
        },
    )
}

// ── config → subscriber spec ────────────────────────────────────────────────

/// `s` is the subscriber wiring that config `c` describes.
pub open spec fn subscriber_of_config(s: SubscriberSpec, c: Config) -> bool {
    &&& s.stack_gap == c.stack.gap
    &&& s.anchor == c.placement.anchor
    &&& s.margin == c.placement.margin
    &&& s.layer@ == layer_name(c.layer.layer)
    &&& s.output == c.layer.output
    &&& s.feed_exec == c.provider.feed_exec
    &&& s.command == c.provider.command
    &&& s.socket == c.provider.socket
}

/// The subscriber wiring of a config: stack gap, placement, layer and provider.
pub fn subscriber_spec(config: &Config) -> (r: SubscriberSpec)
    ensures
        subscriber_of_config(r, *config),
{
    SubscriberSpec {
        stack_gap: config.stack.gap,
        anchor: config.placement.anchor.clone(),
        margin: config.placement.margin,
        layer: config.layer.layer.name(),
        output: config.layer.output.clone(),
        feed_exec: copy_opt_string(&config.provider.feed_exec),
        command: copy_opt_string(&config.provider.command),
        socket: copy_opt_string(&config.provider.socket),
    }
}

impl Settings {
    /// Settings for a config and its base theme; fails on the first theme
    /// color that is not `#RRGGBBAA`.
    pub fn resolve(config: &Config, theme: &Theme) -> (r: Result<Settings, Error>)
        ensures
            match spec_style_error(*theme) {
                Some(e) => r == Err::<Settings, Error>(Error::InvalidHexRgba(e)),
                None => r is Ok && subscriber_of_config(r->Ok_0.subscriber, *config)
                    && style_of_theme(r->Ok_0.style, *theme),
            },
    {
        match card_style_from_theme(theme) {
            Err(e) => Err(Error::InvalidHexRgba(e)),
            Ok(style) => Ok(Settings { subscriber: subscriber_spec(config), style }),
        }
    }
}

// ── override matching ───────────────────────────────────────────────────────

/// A fragment header that applies to notifications of urgency `level`.
pub open spec fn matches_urgency(m: OverrideMeta, level: UrgencyLevel) -> bool {
    m.kind == OverrideType::Urgency && m.level == Some(level)
}

/// A fragment header that applies to notifications from app `app`.
pub open spec fn matches_app(m: OverrideMeta, app: Seq<char>) -> bool {
    m.kind == OverrideType::App && m.name is Some && m.name->0@ == app
}

/// `i` is the first position of `ms` whose header satisfies `p`.
pub open spec fn first_at(ms: Seq<OverrideMeta>, p: spec_fn(OverrideMeta) -> bool, i: int) -> bool {
    &&& 0 <= i < ms.len()
    &&& p(ms[i])
    &&& forall|j: int| 0 <= j < i ==> !p(#[trigger] ms[j])
}

/// The first position of `ms` whose header satisfies `p`, if any.
pub open spec fn first_match(ms: Seq<OverrideMeta>, p: spec_fn(OverrideMeta) -> bool) -> Option<int> {
    if exists|i: int| first_at(ms, p, i) {
        Some(choose|i: int| first_at(ms, p, i))
    } else {
        None
    }
}

/// There is at most one first match.
proof fn lemma_first_unique(ms: Seq<OverrideMeta>, p: spec_fn(OverrideMeta) -> bool, i: int)
    requires
        first_at(ms, p, i),
    ensures
        first_match(ms, p) == Some(i),
{
    let k = choose|k: int| first_at(ms, p, k);
    assert(first_at(ms, p, k));
    if k < i {
        assert(!p(ms[k]));
    } else if i < k {
        assert(!p(ms[i]));
    }
}

/// With no header satisfying `p`, there is no first match.
proof fn lemma_first_none(ms: Seq<OverrideMeta>, p: spec_fn(OverrideMeta) -> bool)
    requires
        forall|j: int| 0 <= j < ms.len() ==> !p(#[trigger] ms[j]),
    ensures
        first_match(ms, p) is None,
{
    if exists|i: int| first_at(ms, p, i) {
        let i = choose|i: int| first_at(ms, p, i);
        assert(p(ms[i]));
    }
}

pub open spec fn metas(ovs: Seq<LoadedOverride>) -> Seq<OverrideMeta> {
    ovs.map_values(|o: LoadedOverride| o.meta)
}

pub open spec fn nested_metas(ns: Seq<NestedOverride>) -> Seq<OverrideMeta> {
    ns.map_values(|o: NestedOverride| o.meta)
}

fn is_urgency(m: &OverrideMeta, level: UrgencyLevel) -> (r: bool)
    ensures
        r == matches_urgency(*m, level),
{
    match m.kind {
        OverrideType::Urgency => match m.level {
            Some(l) => l == level,
            None => false,
        },
        OverrideType::App => false,
    }
}

fn is_app(m: &OverrideMeta, app: &str) -> (r: bool)
    ensures
        r == matches_app(*m, app@),
{
    match m.kind {
        OverrideType::App => match &m.name {
            Some(n) => str_is(n.as_str(), app),
            None => false,
        },
        OverrideType::Urgency => false,
    }
}

/// Position of the first top-level urgency fragment for `level`.
fn first_urgency(ovs: &Vec<LoadedOverride>, level: UrgencyLevel) -> (r: Option<usize>)
    ensures
        match r {
            Some(i) => first_match(metas(ovs@), |m: OverrideMeta| matches_urgency(m, level))
                == Some(i as int),
            None => first_match(metas(ovs@), |m: OverrideMeta| matches_urgency(m, level)) is None,
        },
{
    let ghost p = |m: OverrideMeta| matches_urgency(m, level);
    let ghost ms = metas(ovs@);
    let mut i: usize = 0;
    while i < ovs.len()
        invariant
            i <= ovs.len(),
            ms == metas(ovs@),
            p == (|m: OverrideMeta| matches_urgency(m, level)),
            forall|j: int| 0 <= j < i ==> !p(#[trigger] ms[j]),
        decreases ovs.len() - i,
    {
        if is_urgency(&ovs[i].meta, level) {
            proof {
                assert(ms[i as int] == ovs@[i as int].meta);
                lemma_first_unique(ms, p, i as int);
            }
            return Some(i);
        }
        assert(ms[i as int] == ovs@[i as int].meta);
        i = i + 1;
    }
    proof {
        lemma_first_none(ms, p);
    }
    None
}

/// Position of the first urgency fragment for `level` nested in an app fragment.
fn first_nested_urgency(ns: &Vec<NestedOverride>, level: UrgencyLevel) -> (r: Option<usize>)
    ensures
        match r {
            Some(i) => first_match(nested_metas(ns@), |m: OverrideMeta| matches_urgency(m, level))
                == Some(i as int),
            None => first_match(nested_metas(ns@), |m: OverrideMeta| matches_urgency(m, level))
                is None,
        },
{
    let ghost p = |m: OverrideMeta| matches_urgency(m, level);
    let ghost ms = nested_metas(ns@);
    let mut i: usize = 0;
    while i < ns.len()
        invariant
            i <= ns.len(),
            ms == nested_metas(ns@),
            p == (|m: OverrideMeta| matches_urgency(m, level)),
            forall|j: int| 0 <= j < i ==> !p(#[trigger] ms[j]),
        decreases ns.len() - i,
    {
        if is_urgency(&ns[i].meta, level) {
            proof {
                assert(ms[i as int] == ns@[i as int].meta);
                lemma_first_unique(ms, p, i as int);
            }
            return Some(i);
        }
        assert(ms[i as int] == ns@[i as int].meta);
        i = i + 1;
    }
    proof {
        lemma_first_none(ms, p);
    }
    None
}

/// Position of the first app fragment for `app`.
fn first_app(ovs: &Vec<LoadedOverride>, app: &str) -> (r: Option<usize>)
    ensures
        match r {
            Some(i) => first_match(metas(ovs@), |m: OverrideMeta| matches_app(m, app@))
                == Some(i as int),
            None => first_match(metas(ovs@), |m: OverrideMeta| matches_app(m, app@)) is None,
        },
{
    let ghost p = |m: OverrideMeta| matches_app(m, app@);
    let ghost ms = metas(ovs@);
    let mut i: usize = 0;
    while i < ovs.len()
        invariant
            i <= ovs.len(),
            ms == metas(ovs@),
            p == (|m: OverrideMeta| matches_app(m, app@)),
            forall|j: int| 0 <= j < i ==> !p(#[trigger] ms[j]),
        decreases ovs.len() - i,
    {
        if is_app(&ovs[i].meta, app) {
            proof {
                assert(ms[i as int] == ovs@[i as int].meta);
                lemma_first_unique(ms, p, i as int);
            }
            return Some(i);
        }
        assert(ms[i as int] == ovs@[i as int].meta);
        i = i + 1;
    }
    proof {
        lemma_first_none(ms, p);
    }
    None
}

// ── layers ──────────────────────────────────────────────────────────────────

/// The theme of the first urgency fragment for `urgency` among `ovs`.
pub open spec fn urgency_layer(
    ovs: Seq<LoadedOverride>,
    urgency: Option<UrgencyLevel>,
) -> Seq<FragmentTheme> {
    match urgency {
        Some(l) => match first_match(metas(ovs), |m: OverrideMeta| matches_urgency(m, l)) {
            Some(i) => seq![ovs[i].theme],
            None => Seq::empty(),
        },
        None => Seq::empty(),
    }
}

/// The theme of the first urgency fragment for `urgency` nested in an app
/// fragment.
pub open spec fn nested_layer(
    ns: Seq<NestedOverride>,
    urgency: Option<UrgencyLevel>,
) -> Seq<FragmentTheme> {
    match urgency {
        Some(l) => match first_match(nested_metas(ns), |m: OverrideMeta| matches_urgency(m, l)) {
            Some(j) => seq![ns[j].theme],
            None => Seq::empty(),
        },
        None => Seq::empty(),
    }
}

/// The theme of the first app fragment for `app`, followed by that
/// fragment's nested layer for `urgency`.
pub open spec fn app_layers(
    ovs: Seq<LoadedOverride>,
    app: Option<Seq<char>>,
    urgency: Option<UrgencyLevel>,
) -> Seq<FragmentTheme> {
    match app {
        Some(a) => match first_match(metas(ovs), |m: OverrideMeta| matches_app(m, a)) {
            Some(i) => seq![ovs[i].theme] + nested_layer(ovs[i].nested@, urgency),
            None => Seq::empty(),
        },
        None => Seq::empty(),
    }
}

/// The fragments that apply to a notification, least specific first:
/// urgency, then app, then the app's nested urgency.
pub open spec fn spec_resolve_layers(
    ovs: Seq<LoadedOverride>,
    app: Option<Seq<char>>,
    urgency: Option<UrgencyLevel>,
) -> Seq<FragmentTheme> {
    urgency_layer(ovs, urgency) + app_layers(ovs, app, urgency)
}

/// `base` with each of `layers` applied in turn.
pub open spec fn spec_apply_layers(base: Theme, layers: Seq<FragmentTheme>) -> Theme
    decreases layers.len(),
{
    if layers.len() == 0 {
        base
    } else {
        spec_apply_fragment(spec_apply_layers(base, layers.drop_last()), layers.last())
    }
}

/// The override fragments that apply to a notification from `app_id` with
/// urgency `urgency`, least specific first; within each kind the first
/// matching fragment wins.
pub fn resolve_layers(
    overrides: &Vec<LoadedOverride>,
    app_id: Option<&str>,
    urgency: Option<UrgencyLevel>,
) -> (r: Vec<FragmentTheme>)
    ensures
        r@ == spec_resolve_layers(
            overrides@,
            match app_id {
                Some(a) => Some(a@),
                None => None,
            },
            urgency,
        ),
{
    let mut layers: Vec<FragmentTheme> = Vec::new();
    match urgency {
        Some(l) => match first_urgency(overrides, l) {
            Some(i) => {
                layers.push(overrides[i].theme.copy());
            },
            None => {},
        },
        None => {},
    }
    let ghost ul = layers@;
    assert(ul =~= urgency_layer(overrides@, urgency));
    match app_id {
        Some(a) => match first_app(overrides, a) {
            Some(i) => {
                layers.push(overrides[i].theme.copy());
                let ghost with_app = layers@;
                match urgency {
                    Some(l) => match first_nested_urgency(&overrides[i].nested, l) {
                        Some(j) => {
                            layers.push(overrides[i].nested[j].theme.copy());
                        },
                        None => {},
                    },
                    None => {},
                }
                assert(layers@ =~= ul + (seq![overrides@[i as int].theme] + nested_layer(
                    overrides@[i as int].nested@,
                    urgency,
                )));
            },
            None => {},
        },
        None => {},
    }
    assert(layers@ =~= spec_resolve_layers(
        overrides@,
        match app_id {
            Some(a) => Some(a@),
            None => None,
        },
        urgency,
    ));
    layers
}

/// `base` with each of `layers` applied in order (later layers win).
pub fn apply_layers(base: &Theme, layers: &Vec<FragmentTheme>) -> (r: Theme)
    ensures
        r == spec_apply_layers(*base, layers@),
{
    let mut acc = base.copy();
    let mut i: usize = 0;
    while i < layers.len()
        invariant
            i <= layers.len(),
            acc == spec_apply_layers(*base, layers@.subrange(0, i as int)),
        decreases layers.len() - i,
    {
        proof {
            let next = layers@.subrange(0, i + 1);
            assert(next.drop_last() =~= layers@.subrange(0, i as int));
            assert(next.last() == layers@[i as int]);
        }
        acc = acc.apply_fragment(&layers[i]);
        i = i + 1;
    }
    assert(layers@.subrange(0, layers@.len() as int) =~= layers@);
    acc
}

/// The theme that applies to `n`: the base theme with the fragments for its
/// app and urgency laid over it.
pub open spec fn theme_for_view(
    base: Theme,
    ovs: Seq<LoadedOverride>,
    n: NotificationView,
) -> Theme {
    spec_apply_layers(
        base,
        spec_resolve_layers(ovs, Some(n.app_id@), Some(spec_urgency_level(n.urgency))),
    )
}

/// The card style for one notification: the base theme merged with its app
/// and urgency fragments; when that merge yields an invalid color, the
/// given default style instead.
pub fn style_for_view(
    base: &Theme,
    overrides: &Vec<LoadedOverride>,
    default_style: &CardStyle,
    notification: &NotificationView,
) -> (r: CardStyle)
    ensures
        match spec_style_error(theme_for_view(*base, overrides@, *notification)) {
            None => style_of_theme(r, theme_for_view(*base, overrides@, *notification)),
            Some(_) => r == *default_style,
        },
{
    let urgency = to_urgency_level(notification.urgency);
    let layers = resolve_layers(overrides, Some(notification.app_id.as_str()), Some(urgency));
    let merged = apply_layers(base, &layers);
    match card_style_from_theme(&merged) {
        Ok(style) => style,
        Err(_) => default_style.copy(),
    }
}

// ── laws ────────────────────────────────────────────────────────────────────

/// Applying two lists of layers one after the other is applying their
/// concatenation.
pub proof fn law_apply_layers_concat(base: Theme, a: Seq<FragmentTheme>, b: Seq<FragmentTheme>)
    ensures
        spec_apply_layers(base, a + b) == spec_apply_layers(spec_apply_layers(base, a), b),
    decreases b.len(),
{
    if b.len() == 0 {
        assert(a + b =~= a);
    } else {
        assert((a + b).drop_last() =~= a + b.drop_last());
        assert((a + b).last() == b.last());
        law_apply_layers_concat(base, a, b.drop_last());
    }
}

/// A notification that no fragment matches, by app or by urgency, is
/// styled by the base theme alone.
pub proof fn law_unmatched_uses_base(
    base: Theme,
    ovs: Seq<LoadedOverride>,
    app: Seq<char>,
    level: UrgencyLevel,
)
    requires
        forall|i: int|
            0 <= i < ovs.len() ==> !matches_urgency(#[trigger] ovs[i].meta, level) && !matches_app(
                ovs[i].meta,
                app,
            ),
    ensures
        spec_apply_layers(base, spec_resolve_layers(ovs, Some(app), Some(level))) == base,
{
    let ms = metas(ovs);
    assert forall|j: int| 0 <= j < ms.len() implies !(|m: OverrideMeta| matches_urgency(m, level))(
        #[trigger] ms[j],
    ) by {
        assert(ms[j] == ovs[j].meta);
    }
    assert forall|j: int| 0 <= j < ms.len() implies !(|m: OverrideMeta| matches_app(m, app))(
        #[trigger] ms[j],
    ) by {
        assert(ms[j] == ovs[j].meta);
    }
    lemma_first_none(ms, |m: OverrideMeta| matches_urgency(m, level));
    lemma_first_none(ms, |m: OverrideMeta| matches_app(m, app));
    assert(spec_resolve_layers(ovs, Some(app), Some(level)) =~= Seq::<FragmentTheme>::empty());
}

/// Layers stack in order of specificity: when an app fragment matches and
/// holds an urgency fragment for the notification's urgency, that nested
/// fragment is applied last, over everything else, so its keys win.
pub proof fn law_nested_urgency_applied_last(
    base: Theme,
    ovs: Seq<LoadedOverride>,
    app: Seq<char>,
    level: UrgencyLevel,
    i: int,
    j: int,
)
    requires
        first_at(metas(ovs), |m: OverrideMeta| matches_app(m, app), i),
        first_at(nested_metas(ovs[i].nested@), |m: OverrideMeta| matches_urgency(m, level), j),
    ensures
        ({
            let layers = spec_resolve_layers(ovs, Some(app), Some(level));
            spec_apply_layers(base, layers) == spec_apply_fragment(
                spec_apply_layers(base, layers.drop_last()),
                ovs[i].nested@[j].theme,
            )
        }),
{
    lemma_first_unique(metas(ovs), |m: OverrideMeta| matches_app(m, app), i);
    lemma_first_unique(
        nested_metas(ovs[i].nested@),
        |m: OverrideMeta| matches_urgency(m, level),
        j,
    );
    let layers = spec_resolve_layers(ovs, Some(app), Some(level));
    assert(layers.last() == ovs[i].nested@[j].theme);
}

/// The overlay layer a config layer stands for.
pub open spec fn layer_kind(l: crate::config::LayerShell) -> LayerKind {
    match l {
        crate::config::LayerShell::Background => LayerKind::Background,
        crate::config::LayerShell::Bottom => LayerKind::Bottom,
        crate::config::LayerShell::Top => LayerKind::Top,
        crate::config::LayerShell::Overlay => LayerKind::Overlay,
    }
}

/// The layer named in the resolved settings is the layer the overlay reads
/// back from them: writing a config layer's name and parsing it gives the
/// same layer.
pub proof fn law_layer_name_parses_back(l: crate::config::LayerShell)
    ensures
        spec_parse_layer(layer_name(l)) == layer_kind(l),
{
    reveal_strlit("background");
    reveal_strlit("bottom");
    reveal_strlit("top");
    reveal_strlit("overlay");
    let s = layer_name(l);
    assert(s.len() > 0 && s[0] != ' ');
    assert(trim_start(s) == s);
    assert(trim_end(s) == s);
    assert(trim(s) == s);
    assert(ascii_lower_seq(s) =~= s);
}

/// The resolved subscriber wiring is the config's own: every field equals
/// the config key it comes from, the layer given by its lowercase name.
pub proof fn law_subscriber_wiring_is_the_config(s: SubscriberSpec, c: Config)
    requires
        subscriber_of_config(s, c),
    ensures
        s.stack_gap == c.stack.gap,
        s.anchor == c.placement.anchor,
        s.margin == c.placement.margin,
        s.output == c.layer.output,
        s.feed_exec == c.provider.feed_exec,
        s.command == c.provider.command,
        s.socket == c.provider.socket,
        spec_parse_layer(s.layer@) == layer_kind(c.layer.layer),
{
    law_layer_name_parses_back(c.layer.layer);
}

} // verus!
