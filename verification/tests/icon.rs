use poshanka::icon::{
    data_dirs, icon_path_candidates, pixels_to_bgra, raw_icon_frame, raw_icon_frame_from_base64,
    icon_sources, resolve_icon_path, theme_roots, IconSource, RawIconError,
};
use poshanka::model::{IconRef, NotificationView, RawIconData, Urgency};

/// An empty file named exactly `name` inside `dir`, removed when dropped.
fn file_in(dir: &std::path::Path, name: &str) -> tempfile::NamedTempFile {
    tempfile::Builder::new()
        .prefix(name)
        .rand_bytes(0)
        .tempfile_in(dir)
        .unwrap()
}

/// A directory named exactly `name` inside `dir`, removed when dropped.
fn dir_in(dir: &std::path::Path, name: &str) -> tempfile::TempDir {
    tempfile::Builder::new()
        .prefix(name)
        .rand_bytes(0)
        .tempdir_in(dir)
        .unwrap()
}

fn no_dirs() -> Vec<String> {
    data_dirs(None, None)
}

#[test]
fn resolve_icon_path_prefers_explicit_path() {
    let dir = tempfile::tempdir().unwrap();
    let file = file_in(dir.path(), "bell.svg");
    let icon_path = file.path().to_string_lossy().into_owned();

    let icon = IconRef {
        name: Some("does-not-exist".into()),
        path: Some(icon_path.clone()),
        raw: None,
    };
    let resolved = resolve_icon_path(&icon, "", &no_dirs()).expect("path should resolve");
    assert_eq!(resolved, icon_path);
}

#[test]
fn resolve_icon_path_looks_up_name_in_theme_root() {
    let dir = tempfile::tempdir().unwrap();
    let scalable = dir_in(dir.path(), "scalable");
    let apps = dir_in(scalable.path(), "apps");
    let file = file_in(apps.path(), "firefox.svg");

    let icon = IconRef {
        name: Some("firefox".into()),
        path: None,
        raw: None,
    };
    let theme_root = dir.path().to_string_lossy().into_owned();
    let resolved =
        resolve_icon_path(&icon, &theme_root, &no_dirs()).expect("name should resolve");
    assert_eq!(resolved, file.path().to_string_lossy());
}

#[test]
fn resolve_icon_path_looks_up_name_in_context_first_theme_root() {
    // Papirus-style layout: `<context>/<size>` instead of `<size>/<context>`.
    let dir = tempfile::tempdir().unwrap();
    let apps = dir_in(dir.path(), "apps");
    let scalable = dir_in(apps.path(), "scalable");
    let file = file_in(scalable.path(), "firefox.svg");

    let icon = IconRef {
        name: Some("firefox".into()),
        path: None,
        raw: None,
    };
    let theme_root = dir.path().to_string_lossy().into_owned();
    let resolved =
        resolve_icon_path(&icon, &theme_root, &no_dirs()).expect("name should resolve");
    assert_eq!(resolved, file.path().to_string_lossy());
}

#[test]
fn resolve_icon_path_returns_none_when_nothing_matches() {
    let icon = IconRef {
        name: Some("totally-unknown-icon-xyz".into()),
        path: None,
        raw: None,
    };
    assert!(resolve_icon_path(&icon, "/nonexistent-theme-root-xyz", &no_dirs()).is_none());
}

#[test]
fn resolve_icon_path_returns_none_without_name_or_path() {
    let icon = IconRef::default();
    assert!(resolve_icon_path(&icon, "hicolor", &no_dirs()).is_none());
}

#[test]
fn data_dirs_follow_home_and_xdg() {
    assert_eq!(
        data_dirs(Some("/home/u"), None),
        vec!["/home/u/.local/share", "/home/u/.icons", "/usr/local/share", "/usr/share"]
    );
    assert_eq!(
        data_dirs(None, Some("::/opt/share::/x:")),
        vec!["/opt/share", "/x"]
    );
    assert!(data_dirs(None, Some("")).is_empty());
}

#[test]
fn theme_roots_add_hicolor_after_the_named_theme() {
    let dirs = vec!["/a".to_string(), "/b/".to_string()];
    let roots: Vec<String> = theme_roots("Adwaita", &dirs)
        .into_iter()
        .map(|r| r.into_iter().collect())
        .collect();
    assert_eq!(
        roots,
        vec![
            "/a/icons/Adwaita",
            "/b/icons/Adwaita",
            "/a/icons/hicolor",
            "/b/icons/hicolor"
        ]
    );
    let only_hicolor: Vec<String> = theme_roots("hicolor", &dirs)
        .into_iter()
        .map(|r| r.into_iter().collect())
        .collect();
    assert_eq!(only_hicolor, vec!["/a/icons/hicolor", "/b/icons/hicolor"]);
    let absolute: Vec<String> = theme_roots("/themes/mine", &vec![])
        .into_iter()
        .map(|r| r.into_iter().collect())
        .collect();
    assert_eq!(absolute, vec!["/themes/mine"]);
}

#[test]
fn candidates_start_with_path_and_end_with_pixmaps() {
    let icon = IconRef {
        name: Some("bell".into()),
        path: Some("/tmp/x.png".into()),
        raw: None,
    };
    let c = icon_path_candidates(&icon, "/root", &vec![]);
    assert_eq!(c[0], "/tmp/x.png");
    assert_eq!(c[1], "/root/scalable/apps/bell.svg");
    assert_eq!(c[2], "/root/scalable/apps/bell.png");
    let n = c.len();
    assert_eq!(c[n - 3], "/usr/share/pixmaps/bell.png");
    assert_eq!(c[n - 2], "/usr/share/pixmaps/bell.svg");
    assert_eq!(c[n - 1], "/usr/share/pixmaps/bell.xpm");
    // an empty name is never looked up
    let empty = IconRef {
        name: Some(String::new()),
        path: None,
        raw: None,
    };
    assert!(icon_path_candidates(&empty, "/root", &vec![]).is_empty());
}

fn raw_icon(width: i32, height: i32, has_alpha: bool) -> RawIconData {
    let channels = if has_alpha { 4 } else { 3 };
    RawIconData {
        width,
        height,
        rowstride: width * channels,
        has_alpha,
        bits_per_sample: 8,
        channels,
        data_base64: String::new(),
    }
}

#[test]
fn load_icon_surface_from_raw_decodes_and_scales() {
    // 2x1 opaque red RGBA; scaling to the requested size is the renderer's part.
    let mut raw = raw_icon(2, 1, true);
    raw.data_base64 = "/wAA//8AAP8=".to_string();
    let frame = raw_icon_frame_from_base64(&raw).expect("raw icon should decode");
    assert_eq!((frame.width, frame.height), (2, 1));
    assert_eq!(frame.data, vec![0, 0, 255, 255, 0, 0, 255, 255]);
}

#[test]
fn load_icon_surface_from_raw_premultiplies_alpha() {
    // Single half-transparent red pixel: straight R=200, A=128.
    let mut raw = raw_icon(1, 1, true);
    raw.data_base64 = "yAAAgA==".to_string();
    let frame = raw_icon_frame_from_base64(&raw).expect("raw icon should decode");
    let data = &frame.data;
    // BGRA order; premultiplied red ~= 200 * 128 / 255 = 100.
    let px = &data[0..4];
    assert_eq!(px[3], 128, "alpha byte unchanged");
    assert!(
        (95..=105).contains(&px[2]),
        "red channel should be premultiplied by alpha, got {}",
        px[2]
    );
}

#[test]
fn load_icon_surface_from_raw_respects_rowstride_padding() {
    let mut raw = raw_icon(2, 2, false);
    raw.rowstride = 2 * 3 + 2;
    let pixels = [
        0, 255, 0, 0, 0, 255, 0xAA, 0xAA, // row0: green, blue, padding
        255, 0, 0, 255, 255, 0, 0xAA, 0xAA, // row1: red, yellow, padding
    ];
    assert_eq!(raw_icon_frame(&raw, &pixels), raw_icon_frame_from_base64(&{
        let mut encoded = raw.clone();
        encoded.data_base64 = "AP8AAAD/qqr/AAD//wCqqg==".to_string();
        encoded
    }));
    let frame = raw_icon_frame(&raw, &pixels).expect("raw icon should decode");
    assert_eq!((frame.width, frame.height), (2, 2));
    let stride = frame.stride as usize;
    let data = &frame.data;
    let px1 = &data[4..8];
    assert_eq!((px1[0], px1[1], px1[2], px1[3]), (255, 0, 0, 255));
    let px2 = &data[stride..stride + 4];
    assert_eq!((px2[0], px2[1], px2[2], px2[3]), (0, 0, 255, 255));
}

#[test]
fn load_icon_surface_from_raw_rejects_invalid_dimensions() {
    let raw = raw_icon(0, 0, true);
    assert!(raw_icon_frame_from_base64(&raw).is_err());
    assert_eq!(raw_icon_frame(&raw, &[]), Err(RawIconError::InvalidDimensions));
}

#[test]
fn raw_icon_errors_name_their_cause() {
    let mut odd = raw_icon(1, 1, true);
    odd.bits_per_sample = 16;
    assert_eq!(raw_icon_frame(&odd, &[0; 8]), Err(RawIconError::UnsupportedFormat));
    let mut mismatched = raw_icon(1, 1, true);
    mismatched.channels = 3;
    assert_eq!(
        raw_icon_frame(&mismatched, &[0; 4]),
        Err(RawIconError::UnsupportedFormat)
    );
    let mut narrow = raw_icon(2, 1, true);
    narrow.rowstride = 7;
    assert_eq!(
        raw_icon_frame(&narrow, &[0; 8]),
        Err(RawIconError::InvalidDimensions)
    );
    let short = raw_icon(2, 2, true);
    assert_eq!(raw_icon_frame(&short, &[0; 15]), Err(RawIconError::TruncatedData));
}

#[test]
fn pixels_to_bgra_keeps_straight_colour_when_asked() {
    let out = pixels_to_bgra(&[10, 20, 30, 0, 1, 2, 3, 255], 2, 1, 8, 4, false);
    assert_eq!(out, vec![30, 20, 10, 0, 3, 2, 1, 255]);
    let premul = pixels_to_bgra(&[10, 20, 30, 0, 1, 2, 3, 255], 2, 1, 8, 4, true);
    assert_eq!(premul, vec![0, 0, 0, 0, 3, 2, 1, 255]);
}

#[test]
fn first_found_takes_the_first_hit_among_the_probes() {
    let c = vec!["/a".to_string(), "/b".to_string(), "/c".to_string()];
    assert_eq!(poshanka::icon::first_found(&c, &vec![false, true, true]), Some("/b".to_string()));
    assert_eq!(poshanka::icon::first_found(&c, &vec![false, false]), None);
    assert_eq!(poshanka::icon::first_found(&c, &vec![]), None);
    assert_eq!(poshanka::icon::first_found(&vec![], &vec![true]), None);
}

#[test]
fn empty_icon_theme_disables_name_lookups() {
    let dir = tempfile::tempdir().unwrap();
    let icons = dir_in(dir.path(), "icons");
    let hicolor = dir_in(icons.path(), "hicolor");
    let scalable = dir_in(hicolor.path(), "scalable");
    let apps = dir_in(scalable.path(), "apps");
    let file = file_in(apps.path(), "firefox.svg");
    let icon = IconRef {
        name: Some("firefox".into()),
        path: Some("/nonexistent/poshanka/x.svg".into()),
        raw: None,
    };
    let dirs = vec![dir.path().to_string_lossy().into_owned()];
    assert!(resolve_icon_path(&icon, "", &dirs).is_none());
    assert_eq!(
        resolve_icon_path(&icon, "hicolor", &dirs).as_deref(),
        Some(&*file.path().to_string_lossy())
    );
    assert_eq!(icon_path_candidates(&icon, "", &dirs), vec!["/nonexistent/poshanka/x.svg"]);
    assert!(theme_roots("", &dirs).is_empty());
    let absolute = IconRef {
        name: Some("/abs/icon.png".into()),
        path: None,
        raw: None,
    };
    assert!(icon_path_candidates(&absolute, "", &dirs).is_empty());
    assert_eq!(icon_path_candidates(&absolute, "hicolor", &vec![])[0], "/abs/icon.png");
}

#[test]
fn raw_icon_frame_from_base64_decodes_the_data_first() {
    // 2x1 opaque red RGBA, as the feed carries it.
    let mut raw = raw_icon(2, 1, true);
    raw.data_base64 = "/wAA//8AAP8=".to_string();
    let frame = raw_icon_frame_from_base64(&raw).expect("raw icon should decode");
    assert_eq!(frame.data, vec![0, 0, 255, 255, 0, 0, 255, 255]);

    // Half-transparent red pixel, premultiplied.
    let mut half = raw_icon(1, 1, true);
    half.data_base64 = "yAAAgA==".to_string();
    let frame = raw_icon_frame_from_base64(&half).unwrap();
    assert_eq!(frame.data, vec![0, 0, 100, 128]);

    // 2x2 RGB with row padding.
    let mut padded = raw_icon(2, 2, false);
    padded.rowstride = 8;
    padded.data_base64 = "AP8AAAD/qqr/AAD//wCqqg==".to_string();
    let frame = raw_icon_frame_from_base64(&padded).unwrap();
    assert_eq!(&frame.data[4..8], &[255, 0, 0, 255]);
    assert_eq!(&frame.data[8..12], &[0, 0, 255, 255]);

    let mut bad = raw_icon(1, 1, true);
    bad.data_base64 = "not base64!".to_string();
    assert_eq!(raw_icon_frame_from_base64(&bad), Err(RawIconError::InvalidBase64));

    let empty = raw_icon(0, 0, true);
    assert_eq!(raw_icon_frame_from_base64(&empty), Err(RawIconError::InvalidDimensions));
}

#[test]
fn icon_sources_come_in_order() {
    let raw = raw_icon(1, 1, true);
    let icon = IconRef {
        name: Some("bell".into()),
        path: None,
        raw: Some(raw.clone()),
    };
    let n = NotificationView {
        id: 1,
        app_id: "a".into(),
        summary: "s".into(),
        body: "b".into(),
        urgency: Urgency::Normal,
        timeout_ms: None,
        has_actions: false,
        icon: Some(icon.clone()),
        progress: None,
        category: None,
        desktop_entry: Some("org.app".into()),
        body_markup: false,
    };
    let by_name = |s: &str| IconRef {
        name: Some(s.into()),
        path: None,
        raw: None,
    };
    assert_eq!(
        icon_sources(&n, &"dialog-information".to_string()),
        vec![
            IconSource::Raw(raw),
            IconSource::Lookup(icon),
            IconSource::Lookup(by_name("org.app")),
            IconSource::Lookup(by_name("dialog-information")),
        ]
    );
    let bare = NotificationView {
        icon: None,
        desktop_entry: None,
        ..n
    };
    assert!(icon_sources(&bare, &String::new()).is_empty());
}
