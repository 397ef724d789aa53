//! Subscriber configuration (`config.toml`), override fragment headers, and
//! where the configuration directory is.

use vstd::prelude::*;

use crate::paths::{join, join_str};
use crate::text::{chars_of, string_from_str, string_of};

verus! {

/// Top-level config (`config.toml`).
#[derive(Debug, Clone, PartialEq, Eq)]
pub struct Config {
    pub paths: Paths,
    pub provider: ProviderConfig,
    pub stack: Stack,
    pub placement: Placement,
    pub layer: LayerConfig,
}

/// `[paths]`: the base theme and the ordered override fragments, both
/// relative to the config directory unless absolute.
#[derive(Debug, Clone, PartialEq, Eq)]
pub struct Paths {
    pub theme: String,
    pub overrides: Vec<String>,
}

/// `[provider]`.
#[derive(Debug, Clone, PartialEq, Eq)]
pub struct ProviderConfig {
    /// Long-running feed script (the `exec` key). Prints NDJSON on stdout.
    pub feed_exec: Option<String>,
    /// Optional CLI for one-shot provider commands (`close`, `activate`, `input`, …).
    pub command: Option<String>,
    /// Optional socket path forwarded to the provider CLI.
    pub socket: Option<String>,
}

/// `[stack]`.
#[derive(Debug, Clone, Copy, PartialEq, Eq, Structural)]
pub struct Stack {
    pub gap: u32,
}

/// `[placement]`.
#[derive(Debug, Clone, PartialEq, Eq)]
pub struct Placement {
    pub anchor: String,
    pub margin: u32,
}

/// The `[layer]` table; its `layer` key names the layer-shell layer.
#[derive(Debug, Clone, PartialEq, Eq)]
pub struct LayerConfig {
    pub layer: LayerShell,
    pub output: String,
}

#[derive(Debug, Clone, Copy, PartialEq, Eq, Structural)]
pub enum LayerShell {
    Background,
    Bottom,
    Top,
    Overlay,
}

/// Override fragment config (`<fragment>/config.toml`).
#[derive(Debug, Clone, PartialEq, Eq)]
pub struct FragmentConfig {
    /// The `[override]` table.
    pub override_meta: OverrideMeta,
    pub paths: Option<FragmentPaths>,
}

/// What a fragment applies to.
#[derive(Debug, Clone, PartialEq, Eq)]
pub struct OverrideMeta {
    /// The `type` key.
    pub kind: OverrideType,
    /// Required when `kind == App`.
    pub name: Option<String>,
    /// Required when `kind == Urgency`.
    pub level: Option<UrgencyLevel>,
}

#[derive(Debug, Clone, Copy, PartialEq, Eq, Structural)]
pub enum OverrideType {
    App,
    Urgency,
}

#[derive(Debug, Clone, Copy, PartialEq, Eq, Structural)]
pub enum UrgencyLevel {
    Low,
    Normal,
    Critical,
}

#[derive(Debug, Clone, PartialEq, Eq)]
pub struct FragmentPaths {
    pub theme: Option<String>,
    /// Nested urgency overrides; valid only inside an `app` fragment.
    pub overrides: Vec<String>,
}

/// The lowercase name of a layer-shell layer, as written in `config.toml`.
pub open spec fn layer_name(l: LayerShell) -> Seq<char> {
    match l {
        LayerShell::Background => "background"@,
        LayerShell::Bottom => "bottom"@,
        LayerShell::Top => "top"@,
        LayerShell::Overlay => "overlay"@,
    }
}

impl LayerShell {
    /// The lowercase name of the layer.
    pub fn name(&self) -> (r: String)
        ensures
            r@ == layer_name(*self),
    {
        match self {
            LayerShell::Background => string_from_str("background"),
            LayerShell::Bottom => string_from_str("bottom"),
            LayerShell::Top => string_from_str("top"),
            LayerShell::Overlay => string_from_str("overlay"),
        }
    }
}

/// The directory holding `config.toml`: `$XDG_CONFIG_HOME/poshanka` when
/// that variable is set and non-empty, else `$HOME/.config/poshanka`, else
/// the relative `.config/poshanka`.
pub open spec fn spec_config_dir(
    xdg_config_home: Option<Seq<char>>,
    home: Option<Seq<char>>,
) -> Seq<char> {
    let base = match xdg_config_home {
        Some(x) if x.len() > 0 => x,
        _ => match home {
            Some(h) => join(h, ".config"@),
            None => ".config"@,
        },
    };
    join(base, "poshanka"@)
}

/// Resolve the config directory from the values of `XDG_CONFIG_HOME` and
/// `HOME` (`None` where a variable is unset).
pub fn config_dir_from_env(xdg_config_home: Option<&str>, home: Option<&str>) -> (r: String)
    ensures
        r@ == spec_config_dir(
            match xdg_config_home {
                Some(x) => Some(x@),
                None => None,
            },
            match home {
                Some(h) => Some(h@),
                None => None,
            },
        ),
{
    let mut base: Option<Vec<char>> = None;
    match xdg_config_home {
        Some(x) => {
            let v = chars_of(x);
            if v.len() > 0 {
                base = Some(v);
            }
        },
        None => {},
    }
    let base = match base {
        Some(b) => b,
        None => match home {
            Some(h) => join_str(&chars_of(h), ".config"),
            None => chars_of(".config"),
        },
    };
    string_of(&join_str(&base, "poshanka"))
}

/// `config.toml` inside the config directory.
pub fn default_config_path(xdg_config_home: Option<&str>, home: Option<&str>) -> (r: String)
    ensures
        r@ == join(
            spec_config_dir(
                match xdg_config_home {
                    Some(x) => Some(x@),
                    None => None,
                },
                match home {
                    Some(h) => Some(h@),
                    None => None,
                },
            ),
            "config.toml"@,
        ),
{
    let dir = config_dir_from_env(xdg_config_home, home);
    string_of(&join_str(&chars_of(dir.as_str()), "config.toml"))
}

/// The config directory follows the XDG rule: a non-empty
/// `XDG_CONFIG_HOME` gives `<XDG_CONFIG_HOME>/poshanka`; otherwise `HOME`
/// gives `<HOME>/.config/poshanka`; with neither it is `.config/poshanka`.
pub proof fn law_config_dir_follows_xdg(xdg: Option<Seq<char>>, home: Option<Seq<char>>)
    ensures
        xdg is Some && xdg->0.len() > 0 ==> spec_config_dir(xdg, home) == join(
            xdg->0,
            "poshanka"@,
        ),
        !(xdg is Some && xdg->0.len() > 0) && home is Some ==> spec_config_dir(xdg, home) == join(
            join(home->0, ".config"@),
            "poshanka"@,
        ),
        !(xdg is Some && xdg->0.len() > 0) && home is None ==> spec_config_dir(xdg, home)
            == ".config/poshanka"@,
{
    reveal_strlit(".config");
    reveal_strlit("poshanka");
    reveal_strlit(".config/poshanka");
    assert(join(".config"@, "poshanka"@) =~= ".config/poshanka"@);
}

} // verus!
