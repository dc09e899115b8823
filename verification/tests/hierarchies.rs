use icon_finder::lookup::get_first_index_theme;
use icon_finder::search::{find_best_icon, find_icon, find_icon_helper, IconSearch, SearchAction, SearchEvent};
use icon_finder::theme::{DirList, IconTheme};

fn dirs() -> Vec<DirList> {
    vec![
        DirList::new("/i/Child".to_string(), "Child".to_string()),
        DirList::new("/i/A".to_string(), "A".to_string()),
        DirList::new("/i/B".to_string(), "B".to_string()),
        DirList::new("/i/C".to_string(), "C".to_string()),
        DirList::new("/i/hicolor".to_string(), "hicolor".to_string()),
    ]
}

fn theme(name: &str, parents: &[&str]) -> IconTheme {
    IconTheme {
        name: Some(name.to_string()),
        inherits: if parents.is_empty() { None } else { Some(parents.iter().map(|p| p.to_string()).collect()) },
        directories: None,
    }
}

/// The themes behind the index files: Child inherits from A and B, A from C.
fn load(index: &str) -> IconTheme {
    match index {
        "/i/Child/index.theme" => theme("Child", &["A", "B"]),
        "/i/A/index.theme" => theme("A", &["C"]),
        "/i/B/index.theme" => theme("B", &[]),
        "/i/C/index.theme" => theme("C", &[]),
        "/i/hicolor/index.theme" => theme("hicolor", &[]),
        _ => IconTheme::empty(),
    }
}

type Look = fn(&IconTheme, &str) -> Option<String>;
type Fall = fn(&str) -> Option<String>;

/// Answers the search's requests until it finishes.
fn drive(start: (IconSearch, SearchAction), look: Look, fall: Fall) -> Option<String> {
    let (mut s, mut a) = start;
    for _ in 0..1000 {
        let event = match &a {
            SearchAction::LoadTheme(p) => SearchEvent::ThemeLoaded(load(p)),
            SearchAction::LookupIcon(i) => SearchEvent::Looked(look(&s.theme, i)),
            SearchAction::LookupFallback(i) => SearchEvent::Looked(fall(i)),
            SearchAction::Finished(r) => return r.clone(),
        };
        a = find_icon_helper(&mut s, event);
    }
    panic!("the search did not finish");
}

/// The recursive lookup of the icon theme specification, on the same answers.
fn recursive(t: &IconTheme, icons: &[String], look: Look) -> Option<String> {
    for i in icons {
        if let Some(p) = look(t, i) {
            return Some(p);
        }
    }
    if let Some(parents) = &t.inherits {
        for parent in parents {
            let index = get_first_index_theme(parent.clone(), dirs()).unwrap_or_default();
            if let Some(p) = recursive(&load(&index), icons, look) {
                return Some(p);
            }
        }
    }
    None
}

fn recursive_find(user: &IconTheme, icons: &[String], look: Look, fall: Fall) -> Option<String> {
    if let Some(p) = recursive(user, icons, look) {
        return Some(p);
    }
    if let Some(p) = recursive(&load("/i/hicolor/index.theme"), icons, look) {
        return Some(p);
    }
    icons.iter().find_map(|i| fall(i))
}

fn in_c_and_b(t: &IconTheme, icon: &str) -> Option<String> {
    match (t.name.as_deref(), icon) {
        (Some("C"), "b") => Some("/i/C/b.png".to_string()),
        (Some("B"), "a") => Some("/i/B/a.png".to_string()),
        _ => None,
    }
}

fn in_hicolor(t: &IconTheme, icon: &str) -> Option<String> {
    match (t.name.as_deref(), icon) {
        (Some("hicolor"), "b") => Some("/i/hicolor/b.png".to_string()),
        _ => None,
    }
}

fn nowhere(_: &IconTheme, _: &str) -> Option<String> {
    None
}

fn pixmaps(icon: &str) -> Option<String> {
    if icon == "b" { Some("/p/b.xpm".to_string()) } else { None }
}

fn no_pixmaps(_: &str) -> Option<String> {
    None
}

fn names(v: &[&str]) -> Vec<String> {
    v.iter().map(|s| s.to_string()).collect()
}

#[test]
fn search_agrees_with_recursion_depth_first() {
    let user = load("/i/Child/index.theme");
    let icons = names(&["a", "b"]);
    let found = drive(find_best_icon(icons.clone(), 48, 1, dirs(), Some(user.clone())), in_c_and_b, no_pixmaps);
    // C, reached through A, comes before A's sibling B
    assert_eq!(found, Some("/i/C/b.png".to_string()));
    assert_eq!(found, recursive_find(&user, &icons, in_c_and_b, no_pixmaps));
}

#[test]
fn search_agrees_with_recursion_for_one_name() {
    let user = load("/i/Child/index.theme");
    for icon in ["a", "b", "z"] {
        let found = drive(find_icon(icon.to_string(), 48, 1, dirs(), Some(user.clone())), in_c_and_b, pixmaps);
        assert_eq!(found, recursive_find(&user, &names(&[icon]), in_c_and_b, pixmaps));
    }
    let found = drive(find_icon("a".to_string(), 48, 1, dirs(), Some(user.clone())), in_c_and_b, pixmaps);
    assert_eq!(found, Some("/i/B/a.png".to_string()));
}

#[test]
fn search_reaches_hicolor_then_fallback() {
    let user = load("/i/Child/index.theme");
    let icons = names(&["a", "b"]);
    let found = drive(find_best_icon(icons.clone(), 48, 1, dirs(), Some(user.clone())), in_hicolor, pixmaps);
    assert_eq!(found, Some("/i/hicolor/b.png".to_string()));
    assert_eq!(found, recursive_find(&user, &icons, in_hicolor, pixmaps));
    let found = drive(find_best_icon(icons.clone(), 48, 1, dirs(), Some(user.clone())), nowhere, pixmaps);
    assert_eq!(found, Some("/p/b.xpm".to_string()));
    assert_eq!(found, recursive_find(&user, &icons, nowhere, pixmaps));
    let found = drive(find_best_icon(icons.clone(), 48, 1, dirs(), Some(user.clone())), nowhere, no_pixmaps);
    assert_eq!(found, None);
    assert_eq!(found, recursive_find(&user, &icons, nowhere, no_pixmaps));
}

/// A lookup in a theme with sub-directories where no probe is a file.
fn no_files(t: &IconTheme, icon: &str) -> Option<String> {
    let mut t = t.clone();
    t.directories = Some(vec![icon_finder::theme::Directory {
        name: Some("48x48/apps".to_string()),
        size: Some(48),
        scale: None,
        min_size: None,
        max_size: None,
        threshold: None,
        xdg_type: None,
    }]);
    let icon_dirs = vec!["/i".to_string()];
    let probes = icon_finder::icon::lookup_icon_probes(icon, 48, 1, &t, dirs(), &icon_dirs);
    let exact = vec![false; probes.exact.len()];
    let near = vec![false; probes.near.len()];
    icon_finder::icon::lookup_icon(icon, 48, 1, &t, dirs(), &icon_dirs, true, &exact, &near)
}

#[test]
fn themes_without_the_icon_let_the_search_go_on() {
    let user = load("/i/Child/index.theme");
    let found = drive(find_icon("b".to_string(), 48, 1, dirs(), Some(user.clone())), no_files, pixmaps);
    assert_eq!(found, Some("/p/b.xpm".to_string()));
    let found = drive(find_icon("a".to_string(), 48, 1, dirs(), Some(user)), no_files, no_pixmaps);
    assert_eq!(found, None);
}
