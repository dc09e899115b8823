use icon_finder::icon::{fallback_icon_probes, lookup_fallback_icon, lookup_icon, lookup_icon_probes, lookup_is_defined};
use icon_finder::theme::{DirList, Directory, DirectoryType, IconTheme};

fn subdir(name: &str, size: i32, t: DirectoryType) -> Directory {
    Directory {
        name: Some(name.to_string()),
        size: Some(size),
        scale: None,
        min_size: None,
        max_size: None,
        threshold: None,
        xdg_type: Some(t),
    }
}

fn theme() -> IconTheme {
    IconTheme {
        name: Some("hicolor".to_string()),
        inherits: None,
        directories: Some(vec![
            subdir("16x16/apps", 16, DirectoryType::Fixed),
            subdir("48x48/apps", 48, DirectoryType::Fixed),
        ]),
    }
}

fn dir_list() -> Vec<DirList> {
    vec![DirList::new("/usr/share/icons/hicolor".to_string(), "hicolor".to_string())]
}

fn icon_dirs() -> Vec<String> {
    vec!["/home/me/.icons".to_string(), "/usr/share/icons".to_string()]
}

#[test]
fn probes_of_a_lookup() {
    let p = lookup_icon_probes("firefox", 48, 1, &theme(), dir_list(), &icon_dirs());
    assert_eq!(p.theme_dir, "/usr/share/icons/hicolor");
    assert_eq!(
        p.exact,
        vec![
            "/usr/share/icons/hicolor/48x48/apps/firefox.png",
            "/usr/share/icons/hicolor/48x48/apps/firefox.svg",
            "/usr/share/icons/hicolor/48x48/apps/firefox.xpm",
        ]
    );
    assert_eq!(p.near.len(), 12);
    assert_eq!(p.near[0], "/home/me/.icons/hicolor/16x16/apps/firefox.png");
    assert_eq!(p.near[5], "/usr/share/icons/hicolor/16x16/apps/firefox.xpm");
    assert_eq!(p.near[6], "/home/me/.icons/hicolor/48x48/apps/firefox.png");
}

#[test]
fn exact_size_found() {
    let r = lookup_icon("firefox", 48, 1, &theme(), dir_list(), &icon_dirs(), true, &vec![false, true, true], &vec![]);
    assert_eq!(r, Some("/usr/share/icons/hicolor/48x48/apps/firefox.svg".to_string()));
}

#[test]
fn exact_size_ignored_when_theme_dir_missing() {
    let mut near = vec![false; 12];
    near[2] = true;
    let r = lookup_icon("firefox", 48, 1, &theme(), dir_list(), &icon_dirs(), false, &vec![true, true, true], &near);
    assert_eq!(r, Some("/home/me/.icons/hicolor/16x16/apps/firefox.xpm".to_string()));
}

#[test]
fn nearest_size_wins() {
    let mut near = vec![false; 12];
    near[0] = true; // 16x16 at distance 16
    near[9] = true; // 48x48 under /usr/share/icons at distance 16 too: the first stays
    let r = lookup_icon("firefox", 32, 1, &theme(), dir_list(), &icon_dirs(), true, &vec![], &near);
    assert_eq!(r, Some("/home/me/.icons/hicolor/16x16/apps/firefox.png".to_string()));
    let mut near = vec![false; 12];
    near[0] = true; // distance 24
    near[9] = true; // distance 8
    let r = lookup_icon("firefox", 40, 1, &theme(), dir_list(), &icon_dirs(), true, &vec![], &near);
    assert_eq!(r, Some("/usr/share/icons/hicolor/48x48/apps/firefox.png".to_string()));
}

#[test]
fn nothing_found_gives_nothing() {
    let r = lookup_icon("firefox", 32, 1, &theme(), dir_list(), &icon_dirs(), true, &vec![], &vec![]);
    assert_eq!(r, None);
    let r = lookup_icon("firefox", 48, 1, &theme(), dir_list(), &icon_dirs(), true, &vec![false; 3], &vec![false; 12]);
    assert_eq!(r, None);
    // exact-size files count only where the theme directory exists
    let r = lookup_icon("firefox", 48, 1, &theme(), dir_list(), &icon_dirs(), false, &vec![true; 3], &vec![false; 12]);
    assert_eq!(r, None);
}

#[test]
fn theme_with_empty_directory_list_gives_nothing() {
    let t = IconTheme { name: Some("t".to_string()), inherits: None, directories: Some(vec![]) };
    assert_eq!(lookup_icon("x", 48, 1, &t, vec![], &icon_dirs(), false, &vec![], &vec![]), None);
}

#[test]
fn theme_without_directories_gives_nothing() {
    let t = IconTheme::empty();
    assert_eq!(lookup_icon("firefox", 32, 1, &t, dir_list(), &icon_dirs(), true, &vec![true], &vec![true]), None);
    let p = lookup_icon_probes("firefox", 32, 1, &t, dir_list(), &icon_dirs());
    assert!(p.exact.is_empty() && p.near.is_empty());
}

#[test]
fn fallback_lookup() {
    let probes = fallback_icon_probes("xterm", &icon_dirs());
    assert_eq!(probes.len(), 6);
    assert_eq!(probes[0], "/home/me/.icons/xterm.png");
    assert_eq!(probes[4], "/usr/share/icons/xterm.svg");
    assert_eq!(lookup_fallback_icon("xterm", &icon_dirs(), &vec![false, false, false, false, true, true]),
        Some("/usr/share/icons/xterm.svg".to_string()));
    assert_eq!(lookup_fallback_icon("xterm", &icon_dirs(), &vec![false; 6]), None);
    assert_eq!(lookup_fallback_icon("xterm", &icon_dirs(), &vec![]), None);
    assert_eq!(lookup_fallback_icon("xterm", &Vec::new(), &vec![true]), None);
}

#[test]
fn lookup_defined_on_ordinary_themes() {
    assert!(lookup_is_defined("firefox", 48, 1, &theme(), dir_list(), &icon_dirs(), true, &vec![false, true], &vec![]));
    assert!(lookup_is_defined("firefox", 32, 1, &theme(), dir_list(), &icon_dirs(), true, &vec![], &vec![true; 12]));
    assert!(lookup_is_defined("firefox", 32, 1, &IconTheme::empty(), dir_list(), &icon_dirs(), true, &vec![], &vec![]));
}

#[test]
fn lookup_undefined_without_names() {
    let mut t = theme();
    t.name = None;
    assert!(!lookup_is_defined("firefox", 48, 1, &t, dir_list(), &icon_dirs(), true, &vec![], &vec![]));
    let mut t = theme();
    t.directories.as_mut().unwrap()[1].name = None;
    // the nearest-size search reaches every sub-directory
    assert!(!lookup_is_defined("firefox", 32, 1, &t, dir_list(), &icon_dirs(), true, &vec![], &vec![]));
    // an exact hit in the first sub-directory ends the search before the nameless one
    let mut t = theme();
    t.directories.as_mut().unwrap()[1].name = None;
    assert!(lookup_is_defined("firefox", 16, 1, &t, dir_list(), &icon_dirs(), true, &vec![true], &vec![]));
}

#[test]
fn lookup_undefined_on_overflow() {
    let t = IconTheme {
        name: Some("hicolor".to_string()),
        inherits: None,
        directories: Some(vec![subdir("big", i32::MAX, DirectoryType::Threshold)]),
    };
    // the size test computes `size + threshold`
    assert!(!lookup_is_defined("firefox", i32::MAX, 1, &t, dir_list(), &icon_dirs(), true, &vec![], &vec![]));
    // the distance of a found file squares the wanted size
    let t = IconTheme {
        name: Some("hicolor".to_string()),
        inherits: None,
        directories: Some(vec![subdir("apps", 48, DirectoryType::Threshold)]),
    };
    assert!(!lookup_is_defined("firefox", 100_000, 1, &t, dir_list(), &icon_dirs(), true, &vec![], &vec![true]));
    assert!(lookup_is_defined("firefox", 100_000, 1, &t, dir_list(), &icon_dirs(), true, &vec![], &vec![false]));
}
