//! Icon resolution: `icon.path` / `icon.name` → the icon file on disk, and
//! the pixel conversions of icon images into BGRA frames.
//!
//! Resolution order:
//! 1. `icon.path` — used directly if it points at an existing file.
//! 2. `icon.name` — an absolute name that is a file; otherwise looked up as
//!    an XDG icon-theme name under `CardStyle::icon_theme` (a theme name, or
//!    an absolute path to a theme root), falling back to the `hicolor` theme
//!    and finally the flat `/usr/share/pixmaps` directory. An empty
//!    `icon_theme` turns name lookups off, absolute names included: only
//!    `icon.path` can then resolve.

use vstd::prelude::*;

use crate::model::{IconRef, NotificationView, RawIconData};
use crate::paths::{
    char_views, copy_chars, is_absolute, join, join_path, join_str, nonempty_fields, path_is_file,
    split_nonempty, strings_of, views,
};
use crate::render::Frame;
use crate::text::{chars_eq, chars_of};

use base64::Engine;

verus! {

/// Icon-theme subdirectory "contexts" searched, in priority order.
pub open spec fn contexts() -> Seq<Seq<char>> {
    seq!["apps"@, "status"@, "categories"@, "devices"@, "mimetypes"@, "places"@]
}

/// Size directories searched: `scalable`, then raster sizes largest first
/// (downscaling looks better than upscaling).
pub open spec fn size_dirs() -> Seq<Seq<char>> {
    seq![
        "scalable"@,
        "256x256"@,
        "128x128"@,
        "96x96"@,
        "64x64"@,
        "48x48"@,
        "32x32"@,
        "24x24"@,
    ]
}

/// Extensions searched inside a theme.
pub open spec fn theme_exts() -> Seq<Seq<char>> {
    seq!["svg"@, "png"@]
}

/// `name.ext`.
pub open spec fn file_name(name: Seq<char>, ext: Seq<char>) -> Seq<char> {
    name + "."@ + ext
}

/// Candidate `k` under a theme root: first every XDG `<size>/<context>`
/// location (sizes, then contexts, then extensions), then every
/// context-first `<context>/<size>` location in the same order.
pub open spec fn root_candidate(root: Seq<char>, name: Seq<char>, k: int) -> Seq<char> {
    let half = k >= 96;
    let j = if half {
        k - 96
    } else {
        k
    };
    let si = j / 12;
    let ci = (j / 2) % 6;
    let ei = j % 2;
    let f = file_name(name, theme_exts()[ei]);
    if half {
        join(join(join(root, contexts()[ci]), size_dirs()[si]), f)
    } else {
        join(join(join(root, size_dirs()[si]), contexts()[ci]), f)
    }
}

/// All candidates under one theme root, in search order.
pub open spec fn root_candidates(root: Seq<char>, name: Seq<char>) -> Seq<Seq<char>> {
    Seq::new(192, |k: int| root_candidate(root, name, k))
}

/// The theme roots searched for `icon_theme`: the theme itself (an absolute
/// root, or `<dir>/icons/<theme>` under each data dir), then `hicolor` under
/// each data dir unless the theme is `hicolor`. An empty theme searches no
/// root at all.
pub open spec fn spec_theme_roots(icon_theme: Seq<char>, dirs: Seq<Seq<char>>) -> Seq<Seq<char>> {
    let first = if icon_theme.len() > 0 && icon_theme[0] == '/' {
        seq![icon_theme]
    } else if icon_theme.len() > 0 {
        dirs.map_values(|d: Seq<char>| join(join(d, "icons"@), icon_theme))
    } else {
        Seq::empty()
    };
    let second = if icon_theme.len() > 0 && icon_theme != "hicolor"@ {
        dirs.map_values(|d: Seq<char>| join(join(d, "icons"@), "hicolor"@))
    } else {
        Seq::empty()
    };
    first + second
}

/// The candidates under each root, concatenated in order.
pub open spec fn all_root_candidates(roots: Seq<Seq<char>>, name: Seq<char>) -> Seq<Seq<char>>
    decreases roots.len(),
{
    if roots.len() == 0 {
        Seq::empty()
    } else {
        all_root_candidates(roots.drop_last(), name) + root_candidates(roots.last(), name)
    }
}

/// The flat pixmap directory locations for `name`.
pub open spec fn pixmap_candidates(name: Seq<char>) -> Seq<Seq<char>> {
    seq![
        "/usr/share/pixmaps/"@ + name + ".png"@,
        "/usr/share/pixmaps/"@ + name + ".svg"@,
        "/usr/share/pixmaps/"@ + name + ".xpm"@,
    ]
}

/// Every path `resolve_icon_path` tries, in order; the first that is a file wins.
pub open spec fn spec_icon_candidates(
    icon: IconRef,
    icon_theme: Seq<char>,
    dirs: Seq<Seq<char>>,
) -> Seq<Seq<char>> {
    let by_path = match icon.path {
        Some(p) => seq![p@],
        None => Seq::empty(),
    };
    let by_name = match icon.name {
        None => Seq::empty(),
        Some(n) => if n@.len() == 0 || icon_theme.len() == 0 {
            Seq::empty()
        } else {
            (if is_absolute(n@) {
                seq![n@]
            } else {
                Seq::empty()
            }) + all_root_candidates(spec_theme_roots(icon_theme, dirs), n@) + pixmap_candidates(
                n@,
            )
        },
    };
    by_path + by_name
}

/// The XDG data directories searched for icon themes: `$HOME/.local/share`
/// and `$HOME/.icons` when `HOME` is set, then the non-empty entries of
/// `XDG_DATA_DIRS`, or `/usr/local/share` and `/usr/share` when it is unset.
pub open spec fn spec_data_dirs(home: Option<Seq<char>>, xdg_data_dirs: Option<Seq<char>>) -> Seq<
    Seq<char>,
> {
    let h = match home {
        Some(h) => seq![join(h, ".local/share"@), join(h, ".icons"@)],
        None => Seq::empty(),
    };
    let x = match xdg_data_dirs {
        Some(x) => nonempty_fields(x, ':'),
        None => seq!["/usr/local/share"@, "/usr/share"@],
    };
    h + x
}

/// The icon-theme data directories for the given `HOME` and `XDG_DATA_DIRS`
/// values (`None` when a variable is unset).
pub fn data_dirs(home: Option<&str>, xdg_data_dirs: Option<&str>) -> (r: Vec<String>)
    ensures
        views(r@) == spec_data_dirs(
            match home {
                Some(h) => Some(h@),
                None => None,
            },
            match xdg_data_dirs {
                Some(x) => Some(x@),
                None => None,
            },
        ),
{
    let mut dirs: Vec<Vec<char>> = Vec::new();
    match home {
        Some(h) => {
            let hv = chars_of(h);
            dirs.push(join_str(&hv, ".local/share"));
            dirs.push(join_str(&hv, ".icons"));
        },
        None => {},
    }
    let ghost head = char_views(dirs@);
    let mut tail: Vec<Vec<char>> = match xdg_data_dirs {
        Some(x) => split_nonempty(&chars_of(x), ':'),
        None => {
            let mut d: Vec<Vec<char>> = Vec::new();
            d.push(chars_of("/usr/local/share"));
            d.push(chars_of("/usr/share"));
            assert(char_views(d@) =~= seq!["/usr/local/share"@, "/usr/share"@]);
            d
        },
    };
    let ghost t = char_views(tail@);
    dirs.append(&mut tail);
    assert(char_views(dirs@) =~= head + t);
    strings_of(&dirs)
}

/// Push `join(join(base, a), b)` then `/file`.
fn push_candidate(out: &mut Vec<Vec<char>>, base: &Vec<char>, a: &Vec<char>, b: &Vec<char>, f: &Vec<char>)
    ensures
        char_views(final(out)@) == char_views(old(out)@).push(join(join(join(base@, a@), b@), f@)),
{
    let p = join_path(&join_path(&join_path(base, a), b), f);
    let ghost before = char_views(out@);
    out.push(p);
    assert(char_views(out@) =~= before.push(p@));
}

/// Every candidate icon file under one theme root, in search order.
pub fn theme_root_candidates(root: &Vec<char>, name: &Vec<char>) -> (r: Vec<Vec<char>>)
    ensures
        char_views(r@) == root_candidates(root@, name@),
{
    let mut sizes: Vec<Vec<char>> = Vec::new();
    sizes.push(chars_of("scalable"));
    sizes.push(chars_of("256x256"));
    sizes.push(chars_of("128x128"));
    sizes.push(chars_of("96x96"));
    sizes.push(chars_of("64x64"));
    sizes.push(chars_of("48x48"));
    sizes.push(chars_of("32x32"));
    sizes.push(chars_of("24x24"));
    let mut ctxs: Vec<Vec<char>> = Vec::new();
    ctxs.push(chars_of("apps"));
    ctxs.push(chars_of("status"));
    ctxs.push(chars_of("categories"));
    ctxs.push(chars_of("devices"));
    ctxs.push(chars_of("mimetypes"));
    ctxs.push(chars_of("places"));
    let mut files: Vec<Vec<char>> = Vec::new();
    let mut svg = copy_chars(name);
    svg.push('.');
    svg.push('s');
    svg.push('v');
    svg.push('g');
    let mut png = copy_chars(name);
    png.push('.');
    png.push('p');
    png.push('n');
    png.push('g');
    proof {
        reveal_strlit(".");
        reveal_strlit("svg");
        reveal_strlit("png");
        assert(svg@ =~= file_name(name@, theme_exts()[0]));
        assert(png@ =~= file_name(name@, theme_exts()[1]));
    }
    files.push(svg);
    files.push(png);
    assert(char_views(sizes@) =~= size_dirs());
    assert(char_views(ctxs@) =~= contexts());
    let mut out: Vec<Vec<char>> = Vec::new();
    let mut half: usize = 0;
    while half < 2
        invariant
            half <= 2,
            char_views(sizes@) == size_dirs(),
            char_views(ctxs@) == contexts(),
            sizes@.len() == 8,
            ctxs@.len() == 6,
            files@.len() == 2,
            files@[0]@ == file_name(name@, theme_exts()[0]),
            files@[1]@ == file_name(name@, theme_exts()[1]),
            char_views(out@) =~= root_candidates(root@, name@).subrange(0, 96 * half as int),
        decreases 2 - half,
    {
        let mut si: usize = 0;
        while si < 8
            invariant
                half < 2,
                si <= 8,
                char_views(sizes@) == size_dirs(),
                char_views(ctxs@) == contexts(),
                sizes@.len() == 8,
                ctxs@.len() == 6,
                files@.len() == 2,
                files@[0]@ == file_name(name@, theme_exts()[0]),
                files@[1]@ == file_name(name@, theme_exts()[1]),
                char_views(out@) =~= root_candidates(root@, name@).subrange(
                    0,
                    96 * half + 12 * si,
                ),
            decreases 8 - si,
        {
            let mut ci: usize = 0;
            while ci < 6
                invariant
                    half < 2,
                    si < 8,
                    ci <= 6,
                    char_views(sizes@) == size_dirs(),
                    char_views(ctxs@) == contexts(),
                    sizes@.len() == 8,
                    ctxs@.len() == 6,
                    files@.len() == 2,
                    files@[0]@ == file_name(name@, theme_exts()[0]),
                    files@[1]@ == file_name(name@, theme_exts()[1]),
                    char_views(out@) =~= root_candidates(root@, name@).subrange(
                        0,
                        96 * half + 12 * si + 2 * ci,
                    ),
                decreases 6 - ci,
            {
                let mut ei: usize = 0;
                while ei < 2
                    invariant
                        half < 2,
                        si < 8,
                        ci < 6,
                        ei <= 2,
                        char_views(sizes@) == size_dirs(),
                        char_views(ctxs@) == contexts(),
                        sizes@.len() == 8,
                        ctxs@.len() == 6,
                        files@.len() == 2,
                        files@[0]@ == file_name(name@, theme_exts()[0]),
                        files@[1]@ == file_name(name@, theme_exts()[1]),
                        char_views(out@) =~= root_candidates(root@, name@).subrange(
                            0,
                            96 * half + 12 * si + 2 * ci + ei,
                        ),
                    decreases 2 - ei,
                {
                    let ghost k: int = 96 * half + 12 * si + 2 * ci + ei;
                    let ghost before = char_views(out@);
                    assert(char_views(sizes@)[si as int] == sizes@[si as int]@);
                    assert(char_views(ctxs@)[ci as int] == ctxs@[ci as int]@);
                    if half == 0 {
                        push_candidate(&mut out, root, &sizes[si], &ctxs[ci], &files[ei]);
                    } else {
                        push_candidate(&mut out, root, &ctxs[ci], &sizes[si], &files[ei]);
                    }
                    proof {
                        let j = if half == 1 { k - 96 } else { k };
                        assert(j == 12 * si + 2 * ci + ei);
                        assert(j / 12 == si as int);
                        assert((j / 2) % 6 == ci as int);
                        assert(j % 2 == ei as int);
                        assert(char_views(out@).last() == root_candidate(root@, name@, k));
                        assert(root_candidates(root@, name@).subrange(0, k + 1) =~= root_candidates(
                            root@,
                            name@,
                        ).subrange(0, k).push(root_candidate(root@, name@, k)));
                    }
                    ei = ei + 1;
                }
                ci = ci + 1;
            }
            si = si + 1;
        }
        half = half + 1;
    }
    out
}

/// The theme roots searched for `icon_theme` over the data directories `dirs`.
pub fn theme_roots(icon_theme: &str, dirs: &Vec<String>) -> (r: Vec<Vec<char>>)
    ensures
        char_views(r@) == spec_theme_roots(icon_theme@, views(dirs@)),
{
    let theme = chars_of(icon_theme);
    let mut roots: Vec<Vec<char>> = Vec::new();
    let ghost dv = views(dirs@);
    if theme.len() > 0 && theme[0] == '/' {
        roots.push(copy_chars(&theme));
        assert(char_views(roots@) =~= seq![theme@]);
    } else if theme.len() > 0 {
        let mut i: usize = 0;
        while i < dirs.len()
            invariant
                i <= dirs.len(),
                dv == views(dirs@),
                theme@ == icon_theme@,
                char_views(roots@) =~= dv.map_values(
                    |d: Seq<char>| join(join(d, "icons"@), icon_theme@),
                ).subrange(0, i as int),
            decreases dirs.len() - i,
        {
            let d = chars_of(dirs[i].as_str());
            let ghost before = char_views(roots@);
            roots.push(join_path(&join_str(&d, "icons"), &theme));
            assert(char_views(roots@) =~= before.push(join(join(dv[i as int], "icons"@), theme@)));
            i = i + 1;
        }
    }
    let ghost first = char_views(roots@);
    assert(first =~= (if icon_theme@.len() > 0 && icon_theme@[0] == '/' {
        seq![icon_theme@]
    } else if icon_theme@.len() > 0 {
        dv.map_values(|d: Seq<char>| join(join(d, "icons"@), icon_theme@))
    } else {
        Seq::empty()
    }));
    if theme.len() > 0 && !chars_eq(&theme, &chars_of("hicolor")) {
        let mut i: usize = 0;
        while i < dirs.len()
            invariant
                i <= dirs.len(),
                dv == views(dirs@),
                char_views(roots@) =~= first + dv.map_values(
                    |d: Seq<char>| join(join(d, "icons"@), "hicolor"@),
                ).subrange(0, i as int),
            decreases dirs.len() - i,
        {
            let d = chars_of(dirs[i].as_str());
            let ghost before = char_views(roots@);
            roots.push(join_str(&join_str(&d, "icons"), "hicolor"));
            assert(char_views(roots@) =~= before.push(join(join(dv[i as int], "icons"@), "hicolor"@)));
            i = i + 1;
        }
    }
    roots
}

/// Every path tried for `icon`, in order, given the icon-theme data
/// directories `dirs` (see `data_dirs`).
pub fn icon_path_candidates(icon: &IconRef, icon_theme: &str, dirs: &Vec<String>) -> (r: Vec<String>)
    ensures
        views(r@) == spec_icon_candidates(*icon, icon_theme@, views(dirs@)),
{
    let mut out: Vec<Vec<char>> = Vec::new();
    match &icon.path {
        Some(p) => {
            out.push(chars_of(p.as_str()));
        },
        None => {},
    }
    let ghost by_path = char_views(out@);
    assert(by_path =~= match icon.path {
        Some(p) => seq![p@],
        None => Seq::<Seq<char>>::empty(),
    });
    match &icon.name {
        None => {},
        Some(n) => {
            let name = chars_of(n.as_str());
            if name.len() > 0 && icon_theme.unicode_len() > 0 {
                if name[0] == '/' {
                    out.push(copy_chars(&name));
                }
                let ghost mid = char_views(out@);
                let roots = theme_roots(icon_theme, dirs);
                let mut i: usize = 0;
                while i < roots.len()
                    invariant
                        i <= roots.len(),
                        name@ == n@,
                        char_views(out@) =~= mid + all_root_candidates(
                            char_views(roots@).subrange(0, i as int),
                            name@,
                        ),
                    decreases roots.len() - i,
                {
                    let mut cands = theme_root_candidates(&roots[i], &name);
                    let ghost before = char_views(out@);
                    let ghost cv = char_views(cands@);
                    out.append(&mut cands);
                    proof {
                        assert(char_views(out@) =~= before + cv);
                        let sub = char_views(roots@).subrange(0, i + 1);
                        assert(sub.drop_last() =~= char_views(roots@).subrange(0, i as int));
                        assert(sub.last() == roots@[i as int]@);
                    }
                    i = i + 1;
                }
                assert(char_views(roots@).subrange(0, roots@.len() as int) =~= char_views(roots@));
                let mut png = chars_of("/usr/share/pixmaps/");
                let mut svg = chars_of("/usr/share/pixmaps/");
                let mut xpm = chars_of("/usr/share/pixmaps/");
                let mut k: usize = 0;
                let ghost pre = png@;
                while k < name.len()
                    invariant
                        k <= name.len(),
                        png@ == pre + name@.subrange(0, k as int),
                        svg@ == pre + name@.subrange(0, k as int),
                        xpm@ == pre + name@.subrange(0, k as int),
                    decreases name.len() - k,
                {
                    png.push(name[k]);
                    svg.push(name[k]);
                    xpm.push(name[k]);
                    k = k + 1;
                    assert(png@ =~= pre + name@.subrange(0, k as int));
                    assert(svg@ =~= pre + name@.subrange(0, k as int));
                    assert(xpm@ =~= pre + name@.subrange(0, k as int));
                }
                assert(name@.subrange(0, name@.len() as int) =~= name@);
                png.push('.');
                png.push('p');
                png.push('n');
                png.push('g');
                svg.push('.');
                svg.push('s');
                svg.push('v');
                svg.push('g');
                xpm.push('.');
                xpm.push('x');
                xpm.push('p');
                xpm.push('m');
                proof {
                    reveal_strlit(".png");
                    reveal_strlit(".svg");
                    reveal_strlit(".xpm");
                    assert(png@ =~= "/usr/share/pixmaps/"@ + name@ + ".png"@);
                    assert(svg@ =~= "/usr/share/pixmaps/"@ + name@ + ".svg"@);
                    assert(xpm@ =~= "/usr/share/pixmaps/"@ + name@ + ".xpm"@);
                }
                let ghost before = char_views(out@);
                out.push(png);
                out.push(svg);
                out.push(xpm);
                assert(char_views(out@) =~= before + pixmap_candidates(name@));
            }
        },
    }
    strings_of(&out)
}

/// The first candidate that a probe found to be a file: `found[i]` is what
/// probing `candidates[i]` found; candidates beyond the probes are not taken.
pub open spec fn spec_first_found(candidates: Seq<Seq<char>>, found: Seq<bool>) -> Option<
    Seq<char>,
>
    decreases found.len(),
{
    if found.len() == 0 || candidates.len() == 0 {
        None
    } else if found[0] {
        Some(candidates[0])
    } else {
        spec_first_found(candidates.drop_first(), found.drop_first())
    }
}

proof fn lemma_first_found_member(candidates: Seq<Seq<char>>, found: Seq<bool>)
    ensures
        spec_first_found(candidates, found) matches Some(p) ==> candidates.contains(p),
    decreases found.len(),
{
    if found.len() > 0 && candidates.len() > 0 && !found[0] {
        lemma_first_found_member(candidates.drop_first(), found.drop_first());
        let r = spec_first_found(candidates, found);
        if r is Some {
            let p = r->0;
            let k = choose|k: int| 0 <= k < candidates.drop_first().len()
                && candidates.drop_first()[k] == p;
            assert(candidates[k + 1] == p);
        }
    } else if found.len() > 0 && candidates.len() > 0 {
        assert(candidates[0] == candidates[0]);
    }
}

/// The first of `candidates` that the probes `found` (in the same order)
/// report as a file.
pub fn first_found(candidates: &Vec<String>, found: &Vec<bool>) -> (r: Option<String>)
    ensures
        match spec_first_found(views(candidates@), found@) {
            Some(p) => r is Some && r->0@ == p,
            None => r is None,
        },
{
    let ghost c = views(candidates@);
    assert(c.subrange(0, c.len() as int) =~= c);
    assert(found@.subrange(0, found@.len() as int) =~= found@);
    let mut i: usize = 0;
    while i < found.len() && i < candidates.len()
        invariant
            i <= found.len(),
            i <= candidates.len(),
            c == views(candidates@),
            spec_first_found(c, found@) == spec_first_found(
                c.subrange(i as int, c.len() as int),
                found@.subrange(i as int, found@.len() as int),
            ),
        decreases found.len() - i,
    {
        let ghost cs = c.subrange(i as int, c.len() as int);
        let ghost fs = found@.subrange(i as int, found@.len() as int);
        assert(cs[0] == c[i as int]);
        assert(fs[0] == found@[i as int]);
        if found[i] {
            let hit = candidates[i].clone();
            assert(c[i as int] == hit@);
            return Some(hit);
        }
        assert(cs.drop_first() =~= c.subrange(i + 1, c.len() as int));
        assert(fs.drop_first() =~= found@.subrange(i + 1, found@.len() as int));
        i = i + 1;
    }
    None
}

/// Resolve an [`IconRef`] to a concrete icon file path on disk: the first
/// of `icon_path_candidates(icon, icon_theme, dirs)` that is a file.
///
/// `icon_theme` is `CardStyle::icon_theme`: an XDG icon theme name (e.g.
/// `"Adwaita"`), an absolute path to a theme root, or empty to disable
/// lookups by name (only `icon.path` can then resolve). Candidates are probed in order until one is a
/// file, and the answer is what `first_found` picks from those probes.
/// Which candidate exists depends on the disk, so the contract states that
/// the answer is one of the candidates, and none when there are none.
pub fn resolve_icon_path(icon: &IconRef, icon_theme: &str, dirs: &Vec<String>) -> (r: Option<
    String,
>)
    ensures
        r matches Some(p) ==> spec_icon_candidates(*icon, icon_theme@, views(dirs@)).contains(p@),
        spec_icon_candidates(*icon, icon_theme@, views(dirs@)).len() == 0 ==> r is None,
{
    let cands = icon_path_candidates(icon, icon_theme, dirs);
    let mut found: Vec<bool> = Vec::new();
    let mut hit = false;
    let mut i: usize = 0;
    while i < cands.len() && !hit
        invariant
            i <= cands.len(),
            found@.len() == i,
        decreases cands.len() - i,
    {
        hit = path_is_file(cands[i].as_str());
        found.push(hit);
        i = i + 1;
    }
    proof {
        lemma_first_found_member(views(cands@), found@);
    }
    first_found(&cands, &found)
}

/// Why a raw pixel buffer cannot be turned into a frame.
#[derive(Debug, Clone, Copy, PartialEq, Eq, Structural)]
pub enum RawIconError {
    /// Zero or negative size, a row stride shorter than a row, or a frame
    /// too large to address.
    InvalidDimensions,
    /// Not 8-bit RGB or RGBA (`channels` must be 4 exactly when `has_alpha`).
    UnsupportedFormat,
    /// The decoded data ends before the last pixel.
    TruncatedData,
    /// `data_base64` is not valid standard base64.
    InvalidBase64,
}

/// `c` scaled by alpha `a`, rounded to nearest.
pub open spec fn premul(c: u8, a: u8) -> u8 {
    ((c * a + 127) / 255) as u8
}

/// Index of channel `k` of pixel `(x, y)` in a tight BGRA buffer `w` pixels wide.
pub open spec fn px_index(w: int, x: int, y: int, k: int) -> int {
    (y * w + x) * 4 + k
}

/// Index of the first sample of pixel `(x, y)` in the source buffer.
pub open spec fn src_index(rowstride: int, channels: int, x: int, y: int) -> int {
    y * rowstride + x * channels
}

/// BGRA channel `k` of source pixel `(x, y)`: alpha is the fourth sample
/// (or opaque for 3 channels), and colour channels are scaled by it when
/// `premultiply`.
pub open spec fn bgra_channel(
    data: Seq<u8>,
    rowstride: int,
    channels: int,
    premultiply: bool,
    x: int,
    y: int,
    k: int,
) -> u8 {
    let o = src_index(rowstride, channels, x, y);
    let a: u8 = if channels == 4 {
        data[o + 3]
    } else {
        255
    };
    let c: u8 = if k == 0 {
        data[o + 2]
    } else if k == 1 {
        data[o + 1]
    } else if k == 2 {
        data[o]
    } else {
        a
    };
    if k < 3 && premultiply {
        premul(c, a)
    } else {
        c
    }
}

/// The source can be read for a `width` × `height` image.
pub open spec fn source_fits(
    len: int,
    width: int,
    height: int,
    rowstride: int,
    channels: int,
) -> bool {
    &&& width > 0
    &&& height > 0
    &&& (channels == 3 || channels == 4)
    &&& rowstride >= width * channels
    &&& (height - 1) * rowstride + width * channels <= len
    &&& width * height * 4 <= isize::MAX
}

/// Every channel of `out` is the converted source channel.
pub open spec fn bgra_matches(
    out: Seq<u8>,
    data: Seq<u8>,
    width: int,
    height: int,
    rowstride: int,
    channels: int,
    premultiply: bool,
) -> bool {
    &&& out.len() == width * height * 4
    &&& forall|x: int, y: int, k: int|
        #![trigger out[px_index(width, x, y, k)]]
        0 <= x < width && 0 <= y < height && 0 <= k < 4 ==> out[px_index(width, x, y, k)]
            == bgra_channel(data, rowstride, channels, premultiply, x, y, k)
}

proof fn lemma_px_earlier(w: int, x1: int, y1: int, x: int, y: int, k: int)
    requires
        0 <= x1 < w,
        0 <= x < w,
        0 <= k < 4,
        y1 < y || (y1 == y && x1 < x),
        0 <= y1,
    ensures
        px_index(w, x1, y1, k) < px_index(w, x, y, 0),
{
    if y1 < y {
        assert(y1 * w + x1 < y * w + x) by (nonlinear_arith)
            requires
                y1 < y,
                0 <= x1 < w,
                0 <= x,
        ;
    }
}

proof fn lemma_src_bound(rowstride: int, channels: int, width: int, height: int, x: int, y: int)
    requires
        0 <= x < width,
        0 <= y < height,
        channels > 0,
        rowstride >= width * channels,
    ensures
        0 <= src_index(rowstride, channels, x, y),
        src_index(rowstride, channels, x, y) + channels <= (height - 1) * rowstride + width
            * channels,
{
    assert(x * channels + channels <= width * channels) by (nonlinear_arith)
        requires
            0 <= x < width,
            channels > 0,
    ;
    assert(y * rowstride <= (height - 1) * rowstride) by (nonlinear_arith)
        requires
            0 <= y < height,
            rowstride >= 0,
    ;
    assert(0 <= y * rowstride) by (nonlinear_arith)
        requires
            0 <= y,
            rowstride >= 0,
    ;
    assert(0 <= x * channels) by (nonlinear_arith)
        requires
            0 <= x,
            channels > 0,
    ;
}

fn premul_u8(c: u8, a: u8) -> (r: u8)
    ensures
        r == premul(c, a),
{
    assert((c as u32) * (a as u32) <= 255 * 255) by (nonlinear_arith)
        requires
            c <= 255,
            a <= 255,
    ;
    let v: u32 = (c as u32) * (a as u32) + 127;
    (v / 255) as u8
}

/// Convert RGB or RGBA samples (8 bits each, rows `rowstride` bytes apart)
/// into a tight BGRA buffer, scaling colour by alpha when `premultiply`.
pub fn pixels_to_bgra(
    data: &[u8],
    width: usize,
    height: usize,
    rowstride: usize,
    channels: usize,
    premultiply: bool,
) -> (out: Vec<u8>)
    requires
        source_fits(data@.len() as int, width as int, height as int, rowstride as int, channels as int),
    ensures
        bgra_matches(
            out@,
            data@,
            width as int,
            height as int,
            rowstride as int,
            channels as int,
            premultiply,
        ),
{
    let mut out: Vec<u8> = Vec::new();
    let ghost w = width as int;
    let ghost h = height as int;
    let mut y: usize = 0;
    while y < height
        invariant
            source_fits(data@.len() as int, w, h, rowstride as int, channels as int),
            w == width,
            h == height,
            y <= height,
            out@.len() == px_index(w, 0, y as int, 0),
            forall|x1: int, y1: int, k: int|
                #![trigger out@[px_index(w, x1, y1, k)]]
                0 <= x1 < w && 0 <= y1 < y && 0 <= k < 4 ==> out@[px_index(w, x1, y1, k)]
                    == bgra_channel(data@, rowstride as int, channels as int, premultiply, x1, y1, k),
        decreases height - y,
    {
        let mut x: usize = 0;
        while x < width
            invariant
                source_fits(data@.len() as int, w, h, rowstride as int, channels as int),
                w == width,
                h == height,
                y < height,
                x <= width,
                out@.len() == px_index(w, x as int, y as int, 0),
                forall|x1: int, y1: int, k: int|
                    #![trigger out@[px_index(w, x1, y1, k)]]
                    0 <= x1 < w && 0 <= y1 && (y1 < y || (y1 == y && x1 < x)) && 0 <= k < 4
                        ==> out@[px_index(w, x1, y1, k)] == bgra_channel(
                        data@,
                        rowstride as int,
                        channels as int,
                        premultiply,
                        x1,
                        y1,
                        k,
                    ),
            decreases width - x,
        {
            let len: usize = data.len();
            proof {
                assert(len == data@.len());
                lemma_src_bound(rowstride as int, channels as int, w, h, x as int, y as int);
                assert((y as int) * (rowstride as int) <= data@.len());
                assert((x as int) * (channels as int) <= data@.len());
                assert(px_index(w, x as int, y as int, 0) + 4 <= w * h * 4) by (nonlinear_arith)
                    requires
                        0 <= x < w,
                        0 <= y < h,
                ;
            }
            let o: usize = y * rowstride + x * channels;
            let r = data[o];
            let g = data[o + 1];
            let b = data[o + 2];
            let a: u8 = if channels == 4 {
                data[o + 3]
            } else {
                255
            };
            let ghost before = out@;
            if premultiply {
                out.push(premul_u8(b, a));
                out.push(premul_u8(g, a));
                out.push(premul_u8(r, a));
            } else {
                out.push(b);
                out.push(g);
                out.push(r);
            }
            out.push(a);
            proof {
                let base = px_index(w, x as int, y as int, 0);
                assert(forall|k: int| 0 <= k < 4 ==> #[trigger] px_index(w, x as int, y as int, k) == base + k);
                assert forall|x1: int, y1: int, k: int|
                    #![trigger out@[px_index(w, x1, y1, k)]]
                    0 <= x1 < w && 0 <= y1 && (y1 < y || (y1 == y && x1 < x + 1)) && 0 <= k < 4
                        implies out@[px_index(w, x1, y1, k)] == bgra_channel(
                        data@,
                        rowstride as int,
                        channels as int,
                        premultiply,
                        x1,
                        y1,
                        k,
                    ) by {
                    if y1 == y && x1 == x {
                        assert(px_index(w, x1, y1, k) == base + k);
                    } else {
                        lemma_px_earlier(w, x1, y1, x as int, y as int, k);
                        assert(out@[px_index(w, x1, y1, k)] == before[px_index(w, x1, y1, k)]);
                    }
                }
                assert(px_index(w, (x + 1) as int, y as int, 0) == base + 4);
            }
            x = x + 1;
        }
        assert(px_index(w, w, y as int, 0) == px_index(w, 0, (y + 1) as int, 0)) by (nonlinear_arith);
        y = y + 1;
    }
    assert(px_index(w, 0, h, 0) == w * h * 4) by (nonlinear_arith);
    out
}

/// The frame a raw icon yields, or why none: refused unless the buffer is
/// a positive-size 8-bit RGB/RGBA image whose rows fit the decoded data.
pub open spec fn spec_raw_icon_error(raw: RawIconData, len: int) -> Option<RawIconError> {
    if raw.width <= 0 || raw.height <= 0 {
        Some(RawIconError::InvalidDimensions)
    } else if raw.bits_per_sample != 8 || !(raw.channels == 3 || raw.channels == 4) || raw.has_alpha
        != (raw.channels == 4) {
        Some(RawIconError::UnsupportedFormat)
    } else if raw.rowstride < raw.width * raw.channels || 4 * raw.width > i32::MAX || raw.width
        * raw.height * 4 > isize::MAX {
        Some(RawIconError::InvalidDimensions)
    } else if (raw.height - 1) * raw.rowstride + raw.width * raw.channels > len {
        Some(RawIconError::TruncatedData)
    } else {
        None
    }
}

/// `r` is what the raw buffer `raw` with decoded samples `data` yields: the
/// refusal `spec_raw_icon_error` names, or a premultiplied BGRA frame of the
/// buffer's own size.
pub open spec fn raw_frame_is(r: Result<Frame, RawIconError>, raw: RawIconData, data: Seq<u8>) -> bool {
    match spec_raw_icon_error(raw, data.len() as int) {
        Some(e) => r == Err::<Frame, RawIconError>(e),
        None => r is Ok && r->Ok_0.width == raw.width && r->Ok_0.height == raw.height
            && r->Ok_0.stride == 4 * raw.width && bgra_matches(
            r->Ok_0.data@,
            data,
            raw.width as int,
            raw.height as int,
            raw.rowstride as int,
            raw.channels as int,
            true,
        ),
    }
}

/// Name for what the `base64` crate's standard engine (`STANDARD.decode`)
/// gives for the bytes of `s`: the decoded bytes, or `None` when `s` is not
/// valid padded standard base64.
pub uninterp spec fn spec_base64_decode(s: Seq<char>) -> Option<Seq<u8>>;

/// Decode standard base64 text (`base64::engine::general_purpose::STANDARD`).
///
/// Trusted to return `spec_base64_decode` of its argument; what that is on
/// given text is left to the `base64` crate.
#[verifier::external_body]
fn decode_base64(s: &str) -> (r: Option<Vec<u8>>)
    ensures
        match spec_base64_decode(s@) {
            Some(b) => r is Some && r->0@ == b,
            None => r is None,
        },
{
    base64::engine::general_purpose::STANDARD.decode(s.as_bytes()).ok()
}

/// The frame a raw icon's base64 data yields: refused with `InvalidBase64`
/// when the text does not decode, otherwise as `raw_icon_frame` says for the
/// decoded bytes.
pub fn raw_icon_frame_from_base64(raw: &RawIconData) -> (r: Result<Frame, RawIconError>)
    ensures
        match spec_base64_decode(raw.data_base64@) {
            None => r == Err::<Frame, RawIconError>(RawIconError::InvalidBase64),
            Some(data) => raw_frame_is(r, *raw, data),
        },
{
    match decode_base64(raw.data_base64.as_str()) {
        None => Err(RawIconError::InvalidBase64),
        Some(data) => raw_icon_frame(raw, data.as_slice()),
    }
}

/// Turn a raw pixel buffer (already base64-decoded into `data`) into a
/// premultiplied BGRA frame of its own size.
pub fn raw_icon_frame(raw: &RawIconData, data: &[u8]) -> (r: Result<Frame, RawIconError>)
    ensures
        raw_frame_is(r, *raw, data@),
{
    if raw.width <= 0 || raw.height <= 0 {
        return Err(RawIconError::InvalidDimensions);
    }
    if raw.bits_per_sample != 8 || !(raw.channels == 3 || raw.channels == 4) || raw.has_alpha != (
    raw.channels == 4) {
        return Err(RawIconError::UnsupportedFormat);
    }
    let w = raw.width as u64;
    let h = raw.height as u64;
    let ch = raw.channels as u64;
    let rs = raw.rowstride as i64;
    if rs < (w * ch) as i64 || 4 * w > 0x7fff_ffff {
        return Err(RawIconError::InvalidDimensions);
    }
    assert(w * h <= 0x7fff_ffff * 0x7fff_ffff) by (nonlinear_arith)
        requires
            w <= 0x7fff_ffff,
            h <= 0x7fff_ffff,
    ;
    if w * h * 4 > isize::MAX as u64 {
        return Err(RawIconError::InvalidDimensions);
    }
    let rsu = rs as u64;
    assert((h - 1) * rsu <= 0x7fff_ffff * 0x7fff_ffff) by (nonlinear_arith)
        requires
            h <= 0x7fff_ffff,
            rsu <= 0x7fff_ffff,
            h >= 1,
    ;
    if (h - 1) * rsu + w * ch > data.len() as u64 {
        return Err(RawIconError::TruncatedData);
    }
    let pixels = pixels_to_bgra(
        data,
        raw.width as usize,
        raw.height as usize,
        raw.rowstride as usize,
        raw.channels as usize,
        true,
    );
    Ok(Frame { width: raw.width as u32, height: raw.height as u32, stride: raw.width * 4, data: pixels })
}

/// The icon's own file path, when it has one, is the first place looked at.
pub proof fn law_explicit_path_tried_first(icon: IconRef, icon_theme: Seq<char>, dirs: Seq<Seq<char>>)
    requires
        icon.path is Some,
    ensures
        spec_icon_candidates(icon, icon_theme, dirs).len() > 0,
        spec_icon_candidates(icon, icon_theme, dirs)[0] == icon.path->0@,
{
}

/// An icon with neither a path nor a (non-empty) name is looked up nowhere,
/// so it never resolves.
pub proof fn law_no_name_no_path_no_lookup(icon: IconRef, icon_theme: Seq<char>, dirs: Seq<Seq<char>>)
    requires
        icon.path is None,
        icon.name is None || icon.name->0@.len() == 0,
    ensures
        spec_icon_candidates(icon, icon_theme, dirs).len() == 0,
{
}

/// An empty icon theme turns name lookups off: only the icon's own path is
/// looked at.
pub proof fn law_empty_theme_no_name_lookup(icon: IconRef, dirs: Seq<Seq<char>>)
    ensures
        spec_icon_candidates(icon, Seq::empty(), dirs) == (match icon.path {
            Some(p) => seq![p@],
            None => Seq::<Seq<char>>::empty(),
        }),
{
    let by_path = match icon.path {
        Some(p) => seq![p@],
        None => Seq::<Seq<char>>::empty(),
    };
    assert(by_path + Seq::<Seq<char>>::empty() =~= by_path);
}

/// One place a card's icon can come from.
#[derive(Debug, Clone, PartialEq, Eq)]
pub enum IconSource {
    /// Pixels carried by the notification.
    Raw(RawIconData),
    /// A file found by `resolve_icon_path` for this reference.
    Lookup(IconRef),
}

/// A reference to an icon by name alone.
pub open spec fn named(name: String) -> IconRef {
    IconRef { name: Some(name), path: None, raw: None }
}

/// The places a card's icon is taken from, first usable one wins: the
/// notification's raw pixels, then its icon path or name, then its desktop
/// entry as an icon name, then the style's default icon name (when set).
pub open spec fn spec_icon_sources(n: NotificationView, default_name: String) -> Seq<IconSource> {
    let own = match n.icon {
        Some(i) => (match i.raw {
            Some(r) => seq![IconSource::Raw(r)],
            None => Seq::empty(),
        }) + seq![IconSource::Lookup(i)],
        None => Seq::empty(),
    };
    let entry = match n.desktop_entry {
        Some(e) => seq![IconSource::Lookup(named(e))],
        None => Seq::empty(),
    };
    let fallback = if default_name@.len() > 0 {
        seq![IconSource::Lookup(named(default_name))]
    } else {
        Seq::empty()
    };
    own + entry + fallback
}

/// The icon sources of a notification, in the order they are tried.
pub fn icon_sources(n: &NotificationView, default_name: &String) -> (r: Vec<IconSource>)
    ensures
        r@ == spec_icon_sources(*n, *default_name),
{
    let mut out: Vec<IconSource> = Vec::new();
    match &n.icon {
        Some(i) => {
            match &i.raw {
                Some(r) => {
                    out.push(IconSource::Raw(r.copy()));
                },
                None => {},
            }
            out.push(IconSource::Lookup(i.copy()));
        },
        None => {},
    }
    match &n.desktop_entry {
        Some(e) => {
            out.push(IconSource::Lookup(IconRef { name: Some(e.clone()), path: None, raw: None }));
        },
        None => {},
    }
    if default_name.unicode_len() > 0 {
        out.push(
            IconSource::Lookup(IconRef { name: Some(default_name.clone()), path: None, raw: None }),
        );
    }
    assert(out@ =~= spec_icon_sources(*n, *default_name));
    out
}

/// What `first_found` picks is the first candidate whose probe found a file:
/// every candidate probed before it was not a file; and nothing is picked
/// only when no probed candidate was a file.
pub proof fn law_first_found_is_first_hit(candidates: Seq<Seq<char>>, found: Seq<bool>)
    ensures
        spec_first_found(candidates, found) matches Some(p) ==> exists|i: int|
            0 <= i < found.len() && i < candidates.len() && found[i] && candidates[i] == p
                && forall|j: int| 0 <= j < i ==> !#[trigger] found[j],
        spec_first_found(candidates, found) is None ==> forall|i: int|
            0 <= i < found.len() && i < candidates.len() ==> !#[trigger] found[i],
    decreases found.len(),
{
    if found.len() > 0 && candidates.len() > 0 && !found[0] {
        let c2 = candidates.drop_first();
        let f2 = found.drop_first();
        law_first_found_is_first_hit(c2, f2);
        let r = spec_first_found(candidates, found);
        if r is Some {
            let p = r->0;
            let i2 = choose|i: int|
                0 <= i < f2.len() && i < c2.len() && f2[i] && c2[i] == p && forall|j: int|
                    0 <= j < i ==> !#[trigger] f2[j];
            assert(found[i2 + 1] && candidates[i2 + 1] == p);
            assert forall|j: int| 0 <= j < i2 + 1 implies !#[trigger] found[j] by {
                if j > 0 {
                    assert(found[j] == f2[j - 1]);
                }
            }
        } else {
            assert forall|i: int| 0 <= i < found.len() && i < candidates.len() implies !#[trigger] found[i] by {
                if i > 0 {
                    assert(found[i] == f2[i - 1]);
                }
            }
        }
    } else if found.len() > 0 && candidates.len() > 0 {
        assert(found[0] && candidates[0] == candidates[0]);
    }
}

/// A named theme is searched before `hicolor`: for a theme name that is
/// neither empty, absolute nor `hicolor`, the roots are that theme under
/// every data directory, then `hicolor` under every data directory, each in
/// the order of the directories.
pub proof fn law_theme_before_hicolor(icon_theme: Seq<char>, dirs: Seq<Seq<char>>)
    requires
        icon_theme.len() > 0,
        icon_theme[0] != '/',
        icon_theme != "hicolor"@,
    ensures
        spec_theme_roots(icon_theme, dirs).len() == 2 * dirs.len(),
        forall|i: int|
            0 <= i < dirs.len() ==> #[trigger] spec_theme_roots(icon_theme, dirs)[i] == join(
                join(dirs[i], "icons"@),
                icon_theme,
            ) && spec_theme_roots(icon_theme, dirs)[i + dirs.len()] == join(
                join(dirs[i], "icons"@),
                "hicolor"@,
            ),
{
}

} // verus!
