use poshanka::color::ParseHexRgbaError;
use poshanka::config::{
    Config, LayerConfig, LayerShell, OverrideMeta, OverrideType, Paths, Placement,
    ProviderConfig, Stack, UrgencyLevel,
};
use poshanka::error::Error;
use poshanka::model::{IconPos, NotificationView, ProgressMode, TextAlign, Urgency};
use poshanka::settings::{
    apply_layers, card_style_from_theme, resolve_layers, style_for_view, to_urgency_level,
    LoadedOverride, NestedOverride, Settings,
};
use poshanka::theme::{
    Border, Colors, Font, FragmentColors, FragmentTheme, IconPosition, Icons, Layout, Progress,
    Text, TextAlignment, Theme,
};

fn base_theme() -> Theme {
    Theme {
        font: Font {
            name: "Noto Sans".into(),
            size_bits: 14.0f64.to_bits(),
        },
        colors: Colors {
            background: "#285577ff".into(),
            foreground: "#ffffffff".into(),
            border: "#4c7899ff".into(),
            progress: "#5588aaff".into(),
        },
        layout: Layout {
            width: 300,
            height: 100,
            padding: 5,
            margin: 10,
        },
        border: Border { size: 2, radius: 0 },
        text: Text {
            alignment: TextAlignment::Left,
            summary: "<b>{summary}</b>".into(),
            body: "{body}".into(),
            app: None,
            id: None,
        },
        icons: Icons {
            size: 64,
            position: IconPosition::Left,
            theme: String::new(),
        },
        progress: Progress {
            mode: poshanka::theme::ProgressMode::Over,
        },
    }
}

fn example_config() -> Config {
    Config {
        paths: Paths {
            theme: "theme.toml".into(),
            overrides: vec![
                "urgency/low".into(),
                "urgency/critical".into(),
                "apps/some_app".into(),
            ],
        },
        provider: ProviderConfig {
            feed_exec: Some("scripts/notred-subscribe.sh".into()),
            command: Some("notredctl".into()),
            socket: None,
        },
        stack: Stack { gap: 10 },
        placement: Placement {
            anchor: "bottom-right".into(),
            margin: 0,
        },
        layer: LayerConfig {
            layer: LayerShell::Overlay,
            output: String::new(),
        },
    }
}

fn colors(background: &str, border: &str) -> FragmentTheme {
    FragmentTheme {
        colors: Some(FragmentColors {
            background: Some(background.into()),
            border: Some(border.into()),
            foreground: None,
            progress: None,
        }),
        ..Default::default()
    }
}

fn urgency_meta(level: UrgencyLevel) -> OverrideMeta {
    OverrideMeta {
        kind: OverrideType::Urgency,
        name: None,
        level: Some(level),
    }
}

/// The example override tree: urgency fragments, then an app fragment with
/// nested urgency fragments.
fn example_overrides() -> Vec<LoadedOverride> {
    let mut app_theme = colors("#285577ff", "#4c7899ff");
    app_theme.font = Some(Font {
        name: "Noto Sans".into(),
        size_bits: 13.0f64.to_bits(),
    });
    vec![
        LoadedOverride {
            meta: urgency_meta(UrgencyLevel::Low),
            theme: colors("#2e3440ff", "#4c566aff"),
            nested: vec![],
        },
        LoadedOverride {
            meta: urgency_meta(UrgencyLevel::Critical),
            theme: colors("#bf616aff", "#d08770ff"),
            nested: vec![],
        },
        LoadedOverride {
            meta: OverrideMeta {
                kind: OverrideType::App,
                name: Some("some_app".into()),
                level: None,
            },
            theme: app_theme,
            nested: vec![
                NestedOverride {
                    meta: urgency_meta(UrgencyLevel::Low),
                    theme: colors("#3b4252ff", "#434c5eff"),
                },
                NestedOverride {
                    meta: urgency_meta(UrgencyLevel::Critical),
                    theme: colors("#bf616aff", "#ebcb8bff"),
                },
            ],
        },
    ]
}

fn sample_view(app_id: &str, urgency: Urgency) -> NotificationView {
    NotificationView {
        id: 1,
        app_id: app_id.into(),
        summary: "Hello".into(),
        body: "World".into(),
        urgency,
        timeout_ms: Some(5_000),
        has_actions: false,
        icon: None,
        progress: None,
        category: None,
        desktop_entry: None,
        body_markup: false,
    }
}

fn style_for(app: &str, urgency: Urgency) -> poshanka::model::CardStyle {
    let base = base_theme();
    let default_style = card_style_from_theme(&base).unwrap();
    style_for_view(&base, &example_overrides(), &default_style, &sample_view(app, urgency))
}

#[test]
fn resolve_builds_overlay_from_examples() {
    let settings = Settings::resolve(&example_config(), &base_theme()).unwrap();
    // background #285577ff → BGRA: [0x77, 0x55, 0x28, 0xff]
    assert_eq!(settings.style.background_bgra, [0x77, 0x55, 0x28, 0xff]);
    assert_eq!(settings.subscriber.anchor, "bottom-right");
    assert_eq!(settings.subscriber.stack_gap, 10);
    assert_eq!(settings.subscriber.layer, "overlay");
    assert_eq!(settings.subscriber.command.as_deref(), Some("notredctl"));
}

#[test]
fn resolve_rejects_invalid_hex_color() {
    let mut theme = base_theme();
    theme.colors.background = "not-a-color".into();
    assert!(Settings::resolve(&example_config(), &theme).is_err());
    assert_eq!(
        Settings::resolve(&example_config(), &theme),
        Err(Error::InvalidHexRgba(ParseHexRgbaError::InvalidFormat))
    );
}

#[test]
fn first_invalid_color_decides_the_error() {
    let mut theme = base_theme();
    theme.colors.foreground = "#zz000000".into();
    theme.colors.progress = "#1".into();
    assert_eq!(
        card_style_from_theme(&theme),
        Err(ParseHexRgbaError::InvalidDigit)
    );
}

#[test]
fn card_style_carries_every_theme_key() {
    let style = card_style_from_theme(&base_theme()).unwrap();
    assert_eq!(style.foreground_bgra, [0xff, 0xff, 0xff, 0xff]);
    assert_eq!(style.border_bgra, [0x99, 0x78, 0x4c, 0xff]);
    assert_eq!(style.progress_bgra, [0xaa, 0x88, 0x55, 0xff]);
    assert_eq!(style.font_name, "Noto Sans");
    assert_eq!(f64::from_bits(style.font_size_bits), 14.0);
    assert_eq!((style.width, style.height, style.padding, style.margin), (300, 100, 5, 10));
    assert_eq!((style.border_size, style.border_radius), (2, 0));
    assert_eq!(style.text_alignment, TextAlign::Left);
    assert_eq!(style.summary_template, "<b>{summary}</b>");
    assert_eq!(style.body_template, "{body}");
    assert_eq!(style.icon_size, 64);
    assert_eq!(style.icon_position, IconPos::Left);
    assert_eq!(style.progress_mode, ProgressMode::Over);
    assert!(style.progress_height > 0);
}

#[test]
fn style_for_unmatched_app_and_urgency_uses_base_theme() {
    let style = style_for("unknown_app", Urgency::Normal);
    assert_eq!(style.background_bgra, [0x77, 0x55, 0x28, 0xff]); // #285577ff
}

#[test]
fn style_for_urgency_override_applies() {
    let style = style_for("unknown_app", Urgency::Critical);
    assert_eq!(style.background_bgra[2], 0xbf); // R byte of #bf616aff
}

#[test]
fn style_for_app_and_urgency_layers_stack_in_specificity_order() {
    let style = style_for("some_app", Urgency::Critical);
    // Most specific override (app + urgency) wins.
    assert_eq!(style.background_bgra[2], 0xbf);
    // The nested fragment's border wins over the urgency and app fragments.
    assert_eq!(style.border_bgra, [0x8b, 0xcb, 0xeb, 0xff]);
    // The app fragment's font applies where the nested one is silent.
    assert_eq!(f64::from_bits(style.font_size_bits), 13.0);
}

#[test]
fn invalid_override_color_falls_back_to_default_style() {
    let base = base_theme();
    let default_style = card_style_from_theme(&base).unwrap();
    let overrides = vec![LoadedOverride {
        meta: urgency_meta(UrgencyLevel::Low),
        theme: colors("oops", "#000000ff"),
        nested: vec![],
    }];
    let style = style_for_view(&base, &overrides, &default_style, &sample_view("a", Urgency::Low));
    assert_eq!(style, default_style);
}

#[test]
fn resolve_layers_orders_by_specificity_and_first_match_wins() {
    let mut overrides = example_overrides();
    // A second critical fragment: never used, the first one wins.
    overrides.push(LoadedOverride {
        meta: urgency_meta(UrgencyLevel::Critical),
        theme: colors("#000000ff", "#000000ff"),
        nested: vec![],
    });
    let layers = resolve_layers(&overrides, Some("some_app"), Some(UrgencyLevel::Critical));
    assert_eq!(layers.len(), 3);
    assert_eq!(layers[0], colors("#bf616aff", "#d08770ff"));
    assert_eq!(layers[2], colors("#bf616aff", "#ebcb8bff"));
    assert!(resolve_layers(&overrides, None, None).is_empty());
    assert_eq!(
        resolve_layers(&overrides, Some("other"), Some(UrgencyLevel::Normal)).len(),
        0
    );
    assert_eq!(
        resolve_layers(&overrides, Some("some_app"), None).len(),
        1
    );
}

#[test]
fn apply_layers_later_layers_win() {
    let base = base_theme();
    let layers = vec![colors("#111111ff", "#222222ff"), colors("#333333ff", "#444444ff")];
    let merged = apply_layers(&base, &layers);
    assert_eq!(merged.colors.background, "#333333ff");
    assert_eq!(merged.colors.border, "#444444ff");
    assert_eq!(merged.colors.foreground, "#ffffffff");
    assert_eq!(apply_layers(&base, &vec![]), base);
}

#[test]
fn urgency_levels_map_one_to_one() {
    assert_eq!(to_urgency_level(Urgency::Low), UrgencyLevel::Low);
    assert_eq!(to_urgency_level(Urgency::Normal), UrgencyLevel::Normal);
    assert_eq!(to_urgency_level(Urgency::Critical), UrgencyLevel::Critical);
}
