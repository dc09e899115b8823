use icon_finder::search::{find_best_icon, find_icon, find_icon_helper, SearchAction, SearchEvent, Stage};
use icon_finder::theme::{DirList, IconTheme};

fn dirs() -> Vec<DirList> {
    vec![
        DirList::new("/i/Child".to_string(), "Child".to_string()),
        DirList::new("/i/A".to_string(), "A".to_string()),
        DirList::new("/i/B".to_string(), "B".to_string()),
        DirList::new("/i/hicolor".to_string(), "hicolor".to_string()),
    ]
}

fn theme(name: &str, parents: &[&str]) -> IconTheme {
    IconTheme {
        name: Some(name.to_string()),
        inherits: if parents.is_empty() { None } else { Some(parents.iter().map(|p| p.to_string()).collect()) },
        directories: None,
    }
}

fn load(a: &SearchAction) -> String {
    match a {
        SearchAction::LoadTheme(p) => p.clone(),
        other => panic!("expected a load, got {:?}", other),
    }
}

#[test]
fn search_walks_parents_depth_first_then_hicolor_then_fallback() {
    let (mut s, a) = find_icon("edit".to_string(), 48, 1, dirs(), Some(theme("Child", &["A", "B"])));
    assert!(matches!(a, SearchAction::LookupIcon(ref i) if i == "edit"));
    let a = find_icon_helper(&mut s, SearchEvent::Looked(None));
    assert_eq!(load(&a), "/i/A/index.theme");
    let a = find_icon_helper(&mut s, SearchEvent::ThemeLoaded(theme("A", &["Unknown"])));
    assert!(matches!(a, SearchAction::LookupIcon(_)));
    let a = find_icon_helper(&mut s, SearchEvent::Looked(None));
    // A's parent comes before A's sibling B, and an unknown theme has no index file
    assert_eq!(load(&a), "");
    let a = find_icon_helper(&mut s, SearchEvent::ThemeLoaded(IconTheme::empty()));
    assert!(matches!(a, SearchAction::LookupIcon(_)));
    let a = find_icon_helper(&mut s, SearchEvent::Looked(None));
    assert_eq!(load(&a), "/i/B/index.theme");
    let a = find_icon_helper(&mut s, SearchEvent::ThemeLoaded(theme("B", &[])));
    assert!(matches!(a, SearchAction::LookupIcon(_)));
    let a = find_icon_helper(&mut s, SearchEvent::Looked(None));
    assert_eq!(s.stage, Stage::Hicolor);
    assert_eq!(load(&a), "/i/hicolor/index.theme");
    let a = find_icon_helper(&mut s, SearchEvent::ThemeLoaded(theme("hicolor", &[])));
    assert!(matches!(a, SearchAction::LookupIcon(_)));
    let a = find_icon_helper(&mut s, SearchEvent::Looked(None));
    assert!(matches!(a, SearchAction::LookupFallback(ref i) if i == "edit"));
    let a = find_icon_helper(&mut s, SearchEvent::Looked(None));
    assert!(matches!(a, SearchAction::Finished(None)));
    assert_eq!(s.stage, Stage::Finished);
    let a = find_icon_helper(&mut s, SearchEvent::Looked(Some("x".to_string())));
    assert!(matches!(a, SearchAction::Finished(None)));
}

#[test]
fn found_icon_stops_the_search() {
    let (mut s, _) = find_icon("edit".to_string(), 48, 1, dirs(), Some(theme("Child", &["A"])));
    assert_eq!((s.size, s.scale), (48, 1));
    let a = find_icon_helper(&mut s, SearchEvent::Looked(Some("/i/Child/48/edit.png".to_string())));
    assert!(matches!(a, SearchAction::Finished(Some(ref p)) if p == "/i/Child/48/edit.png"));
    assert_eq!(s.stage, Stage::Finished);
}

#[test]
fn without_user_theme_find_icon_starts_empty() {
    let (mut s, a) = find_icon("edit".to_string(), 48, 1, dirs(), None);
    assert!(matches!(a, SearchAction::LookupIcon(_)));
    let a = find_icon_helper(&mut s, SearchEvent::Looked(None));
    assert_eq!(load(&a), "/i/hicolor/index.theme");
}

#[test]
fn without_user_theme_find_best_icon_finds_nothing() {
    let (s, a) = find_best_icon(vec!["a".to_string()], 48, 1, dirs(), None);
    assert!(matches!(a, SearchAction::Finished(None)));
    assert_eq!(s.stage, Stage::Finished);
}

#[test]
fn best_icon_tries_each_name_per_theme() {
    let (mut s, a) = find_best_icon(vec!["a".to_string(), "b".to_string()], 48, 1, dirs(), Some(theme("Child", &[])));
    assert!(matches!(a, SearchAction::LookupIcon(ref i) if i == "a"));
    let a = find_icon_helper(&mut s, SearchEvent::Looked(None));
    assert!(matches!(a, SearchAction::LookupIcon(ref i) if i == "b"));
    let a = find_icon_helper(&mut s, SearchEvent::Looked(None));
    assert_eq!(load(&a), "/i/hicolor/index.theme");
    let _ = find_icon_helper(&mut s, SearchEvent::ThemeLoaded(theme("hicolor", &[])));
    let _ = find_icon_helper(&mut s, SearchEvent::Looked(None));
    let a = find_icon_helper(&mut s, SearchEvent::Looked(None));
    assert!(matches!(a, SearchAction::LookupFallback(ref i) if i == "a"));
    let a = find_icon_helper(&mut s, SearchEvent::Looked(None));
    assert!(matches!(a, SearchAction::LookupFallback(ref i) if i == "b"));
    let a = find_icon_helper(&mut s, SearchEvent::Looked(Some("/p/b.png".to_string())));
    assert!(matches!(a, SearchAction::Finished(Some(ref p)) if p == "/p/b.png"));
}

#[test]
fn best_of_one_name_is_finding_that_name() {
    let (mut s1, a1) = find_icon("x".to_string(), 48, 1, dirs(), Some(theme("Child", &["A"])));
    let (mut s2, a2) = find_best_icon(vec!["x".to_string()], 48, 1, dirs(), Some(theme("Child", &["A"])));
    assert_eq!(format!("{:?}", a1), format!("{:?}", a2));
    for _ in 0..3 {
        let b1 = find_icon_helper(&mut s1, SearchEvent::Looked(None));
        let b2 = find_icon_helper(&mut s2, SearchEvent::Looked(None));
        assert_eq!(format!("{:?}", b1), format!("{:?}", b2));
    }
}
