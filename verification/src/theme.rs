//! Visual theme (`theme.toml`) and override fragments that patch it.

use vstd::prelude::*;

use crate::feed::provider::copy_opt_string;
use crate::paths::{is_absolute, join, join_path, join_str, path_is_file, path_parent, spec_path_parent};
use crate::text::{chars_of, string_of};

verus! {

/// Top-level theme file (`theme.toml`).
#[derive(Debug, Clone, PartialEq, Eq)]
pub struct Theme {
    pub font: Font,
    pub colors: Colors,
    pub layout: Layout,
    pub border: Border,
    pub text: Text,
    pub icons: Icons,
    pub progress: Progress,
}

/// `[font]`. The size is kept as the IEEE-754 bit pattern of the configured
/// point size; it is carried through unchanged to the renderer.
#[derive(Debug, Clone, PartialEq, Eq)]
pub struct Font {
    pub name: String,
    pub size_bits: u64,
}

#[derive(Debug, Clone, PartialEq, Eq)]
pub struct Colors {
    pub background: String,
    pub foreground: String,
    pub border: String,
    pub progress: String,
}

#[derive(Debug, Clone, Copy, PartialEq, Eq, Structural)]
pub struct Layout {
    pub width: u32,
    /// Maximum card height in pixels.
    pub height: u32,
    pub padding: u32,
    pub margin: u32,
}

#[derive(Debug, Clone, Copy, PartialEq, Eq, Structural)]
pub struct Border {
    pub size: u32,
    pub radius: u32,
}

#[derive(Debug, Clone, PartialEq, Eq)]
pub struct Text {
    pub alignment: TextAlignment,
    pub summary: String,
    pub body: String,
    pub app: Option<String>,
    pub id: Option<String>,
}

#[derive(Debug, Clone, Copy, PartialEq, Eq, Structural)]
pub enum TextAlignment {
    Left,
    Center,
    Right,
}

#[derive(Debug, Clone, PartialEq, Eq)]
pub struct Icons {
    /// ≤0 disables icon rendering.
    pub size: i32,
    pub position: IconPosition,
    pub theme: String,
}

#[derive(Debug, Clone, Copy, PartialEq, Eq, Structural)]
pub enum IconPosition {
    Left,
    Right,
    Top,
    Bottom,
}

#[derive(Debug, Clone, Copy, PartialEq, Eq, Structural)]
pub struct Progress {
    pub mode: ProgressMode,
}

#[derive(Debug, Clone, Copy, PartialEq, Eq, Structural)]
pub enum ProgressMode {
    Over,
    Source,
}

/// Partial theme used in override fragments (all sections optional, colors patch-by-key).
#[derive(Debug, Clone, PartialEq, Eq, Default)]
pub struct FragmentTheme {
    pub font: Option<Font>,
    pub colors: Option<FragmentColors>,
    pub layout: Option<Layout>,
    pub border: Option<Border>,
    pub text: Option<Text>,
    pub icons: Option<Icons>,
    pub progress: Option<Progress>,
}

/// Partial color table — each key is optional so urgency fragments can patch
/// only the keys they care about (e.g. `background` + `border` only).
#[derive(Debug, Clone, PartialEq, Eq, Default)]
pub struct FragmentColors {
    pub background: Option<String>,
    pub foreground: Option<String>,
    pub border: Option<String>,
    pub progress: Option<String>,
}

impl Font {
    pub fn copy(&self) -> (r: Font)
        ensures
            r == *self,
    {
        Font { name: self.name.clone(), size_bits: self.size_bits }
    }
}

impl Colors {
    pub fn copy(&self) -> (r: Colors)
        ensures
            r == *self,
    {
        Colors {
            background: self.background.clone(),
            foreground: self.foreground.clone(),
            border: self.border.clone(),
            progress: self.progress.clone(),
        }
    }
}

impl Text {
    pub fn copy(&self) -> (r: Text)
        ensures
            r == *self,
    {
        Text {
            alignment: self.alignment,
            summary: self.summary.clone(),
            body: self.body.clone(),
            app: copy_opt_string(&self.app),
            id: copy_opt_string(&self.id),
        }
    }
}

impl Icons {
    pub fn copy(&self) -> (r: Icons)
        ensures
            r == *self,
    {
        Icons { size: self.size, position: self.position, theme: self.theme.clone() }
    }
}

impl FragmentColors {
    pub fn copy(&self) -> (r: FragmentColors)
        ensures
            r == *self,
    {
        FragmentColors {
            background: copy_opt_string(&self.background),
            foreground: copy_opt_string(&self.foreground),
            border: copy_opt_string(&self.border),
            progress: copy_opt_string(&self.progress),
        }
    }
}

impl FragmentTheme {
    pub fn copy(&self) -> (r: FragmentTheme)
        ensures
            r == *self,
    {
        FragmentTheme {
            font: match &self.font {
                Some(f) => Some(f.copy()),
                None => None,
            },
            colors: match &self.colors {
                Some(c) => Some(c.copy()),
                None => None,
            },
            layout: self.layout,
            border: self.border,
            text: match &self.text {
                Some(t) => Some(t.copy()),
                None => None,
            },
            icons: match &self.icons {
                Some(i) => Some(i.copy()),
                None => None,
            },
            progress: self.progress,
        }
    }
}

/// `o`'s value, or `d` when it is absent.
pub open spec fn or_else<T>(o: Option<T>, d: T) -> T {
    match o {
        Some(v) => v,
        None => d,
    }
}

/// `frag` laid over `base`: colors are patched key by key; every other
/// section is replaced whole when the fragment has it.
pub open spec fn spec_apply_fragment(base: Theme, frag: FragmentTheme) -> Theme {
    Theme {
        font: or_else(frag.font, base.font),
        colors: match frag.colors {
            None => base.colors,
            Some(fc) => Colors {
                background: or_else(fc.background, base.colors.background),
                foreground: or_else(fc.foreground, base.colors.foreground),
                border: or_else(fc.border, base.colors.border),
                progress: or_else(fc.progress, base.colors.progress),
            },
        },
        layout: or_else(frag.layout, base.layout),
        border: or_else(frag.border, base.border),
        text: or_else(frag.text, base.text),
        icons: or_else(frag.icons, base.icons),
        progress: or_else(frag.progress, base.progress),
    }
}

fn pick_string(o: &Option<String>, d: &String) -> (r: String)
    ensures
        r == or_else(*o, *d),
{
    match o {
        Some(v) => v.clone(),
        None => d.clone(),
    }
}

impl Theme {
    pub fn copy(&self) -> (r: Theme)
        ensures
            r == *self,
    {
        Theme {
            font: self.font.copy(),
            colors: self.colors.copy(),
            layout: self.layout,
            border: self.border,
            text: self.text.copy(),
            icons: self.icons.copy(),
            progress: self.progress,
        }
    }

    /// Apply `frag` on top of `self`, returning a new merged [`Theme`].
    ///
    /// Colors are patched key-by-key (only the keys present in `frag.colors` replace
    /// the corresponding base keys).  All other sections are replaced whole if present.
    pub fn apply_fragment(&self, frag: &FragmentTheme) -> (r: Theme)
        ensures
            r == spec_apply_fragment(*self, *frag),
    {
        Theme {
            font: match &frag.font {
                Some(f) => f.copy(),
                None => self.font.copy(),
            },
            colors: match &frag.colors {
                None => self.colors.copy(),
                Some(fc) => Colors {
                    background: pick_string(&fc.background, &self.colors.background),
                    foreground: pick_string(&fc.foreground, &self.colors.foreground),
                    border: pick_string(&fc.border, &self.colors.border),
                    progress: pick_string(&fc.progress, &self.colors.progress),
                },
            },
            layout: match frag.layout {
                Some(l) => l,
                None => self.layout,
            },
            border: match frag.border {
                Some(b) => b,
                None => self.border,
            },
            text: match &frag.text {
                Some(t) => t.copy(),
                None => self.text.copy(),
            },
            icons: match &frag.icons {
                Some(i) => i.copy(),
                None => self.icons.copy(),
            },
            progress: match frag.progress {
                Some(p) => p,
                None => self.progress,
            },
        }
    }
}

/// The fragment with no overrides.
pub open spec fn empty_fragment() -> FragmentTheme {
    FragmentTheme {
        font: None,
        colors: None,
        layout: None,
        border: None,
        text: None,
        icons: None,
        progress: None,
    }
}

/// A fragment that overrides nothing leaves the theme as it is.
pub proof fn law_empty_fragment_is_identity(base: Theme)
    ensures
        spec_apply_fragment(base, empty_fragment()) == base,
{
}

/// Applying the same fragment twice is the same as applying it once.
pub proof fn law_apply_fragment_idempotent(base: Theme, frag: FragmentTheme)
    ensures
        spec_apply_fragment(spec_apply_fragment(base, frag), frag) == spec_apply_fragment(base, frag),
{
}

/// Where a theme named `name` is looked for, for a config file at
/// `config_path` and the config directory `config_dir`: an absolute name as
/// is; otherwise beside the config file when that file exists, else under
/// `<config_dir>/themes/`.
pub open spec fn theme_fallback(config_dir: Seq<char>, name: Seq<char>) -> Seq<char> {
    join(join(config_dir, "themes"@), name)
}

/// Decide where a theme named `theme_name` is read from, given the config
/// file's parent directory `parent` and whether the theme file beside the
/// config exists (`beside_is_file`): an absolute name as is; else the file
/// beside the config when it exists; else `<config_dir>/themes/<name>`.
pub fn choose_theme_path(
    parent: Option<&str>,
    beside_is_file: bool,
    theme_name: &str,
    config_dir: &str,
) -> (r: String)
    ensures
        is_absolute(theme_name@) ==> r@ == theme_name@,
        !is_absolute(theme_name@) && parent is Some && beside_is_file ==> r@ == join(
            parent->0@,
            theme_name@,
        ),
        !is_absolute(theme_name@) && !(parent is Some && beside_is_file) ==> r@ == theme_fallback(
            config_dir@,
            theme_name@,
        ),
{
    let name = chars_of(theme_name);
    if name.len() > 0 && name[0] == '/' {
        return string_of(&name);
    }
    match parent {
        Some(p) => {
            if beside_is_file {
                return string_of(&join_path(&chars_of(p), &name));
            }
        },
        None => {},
    }
    string_of(&join_path(&join_str(&chars_of(config_dir), "themes"), &name))
}

/// Resolve a theme path: absolute paths are returned as-is; relative paths are
/// resolved beside the config file when that file exists, falling back to
/// `<config_dir>/themes/<name>`.
///
/// Whether the file beside the config exists is read from the disk (one
/// `path_is_file` probe of that path); `choose_theme_path` decides from the
/// probe's answer.
pub fn resolve_path(config_path: &str, theme_name: &str, config_dir: &str) -> (r: String)
    ensures
        is_absolute(theme_name@) ==> r@ == theme_name@,
        !is_absolute(theme_name@) ==> (r@ == theme_fallback(config_dir@, theme_name@) || (
        spec_path_parent(config_path@) is Some && r@ == join(
            spec_path_parent(config_path@)->0,
            theme_name@,
        ))),
        !is_absolute(theme_name@) && spec_path_parent(config_path@) is None ==> r@
            == theme_fallback(config_dir@, theme_name@),
{
    let parent = path_parent(config_path);
    let beside_is_file = match &parent {
        Some(p) => {
            if is_absolute_str(theme_name) {
                false
            } else {
                let beside = string_of(&join_path(&chars_of(p.as_str()), &chars_of(theme_name)));
                path_is_file(beside.as_str())
            }
        },
        None => false,
    };
    match &parent {
        Some(p) => choose_theme_path(Some(p.as_str()), beside_is_file, theme_name, config_dir),
        None => choose_theme_path(None, beside_is_file, theme_name, config_dir),
    }
}

fn is_absolute_str(s: &str) -> (r: bool)
    ensures
        r == is_absolute(s@),
{
    let v = chars_of(s);
    v.len() > 0 && v[0] == '/'
}

/// Colours are patched key by key: a key the fragment's colour table sets
/// replaces the base colour, a key it leaves out keeps the base colour, and
/// a fragment without a colour table keeps all base colours.
pub proof fn law_fragment_colors_patch_by_key(base: Theme, frag: FragmentTheme)
    ensures
        ({
            let c = spec_apply_fragment(base, frag).colors;
            match frag.colors {
                None => c == base.colors,
                Some(fc) => {
                    &&& (fc.background matches Some(v) ==> c.background == v)
                    &&& (fc.background is None ==> c.background == base.colors.background)
                    &&& (fc.foreground matches Some(v) ==> c.foreground == v)
                    &&& (fc.foreground is None ==> c.foreground == base.colors.foreground)
                    &&& (fc.border matches Some(v) ==> c.border == v)
                    &&& (fc.border is None ==> c.border == base.colors.border)
                    &&& (fc.progress matches Some(v) ==> c.progress == v)
                    &&& (fc.progress is None ==> c.progress == base.colors.progress)
                },
            }
        }),
{
}

/// Every other section is replaced whole when the fragment has it, and kept
/// from the base theme when it does not.
pub proof fn law_fragment_sections_replace_whole(base: Theme, frag: FragmentTheme)
    ensures
        ({
            let t = spec_apply_fragment(base, frag);
            &&& (frag.font matches Some(f) ==> t.font == f)
            &&& (frag.font is None ==> t.font == base.font)
            &&& (frag.layout matches Some(l) ==> t.layout == l)
            &&& (frag.layout is None ==> t.layout == base.layout)
            &&& (frag.border matches Some(b) ==> t.border == b)
            &&& (frag.border is None ==> t.border == base.border)
            &&& (frag.text matches Some(x) ==> t.text == x)
            &&& (frag.text is None ==> t.text == base.text)
            &&& (frag.icons matches Some(i) ==> t.icons == i)
            &&& (frag.icons is None ==> t.icons == base.icons)
            &&& (frag.progress matches Some(p) ==> t.progress == p)
            &&& (frag.progress is None ==> t.progress == base.progress)
        }),
{
}

} // verus!
