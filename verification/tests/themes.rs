use icon_finder::config::{check_user_config, user_theme};
use icon_finder::lookup::{find_by_name, get_first_index_theme, look_for_theme_directory};
use icon_finder::theme::{generate_dir_list, theme_index_path, DirList, IconTheme};
use icon_finder::theme_file::parse_i32;
use icon_finder::theme::DirectoryType;

fn dirs() -> Vec<DirList> {
    vec![
        DirList::new("/usr/share/icons/Adwaita".to_string(), "Adwaita".to_string()),
        DirList::new("/usr/share/icons/Breeze-Dark".to_string(), "Breeze Dark".to_string()),
        DirList::new("/home/me/.icons/hicolor".to_string(), "Hicolor".to_string()),
    ]
}

#[test]
fn new_and_index() {
    let d = DirList::new("/usr/share/icons/hicolor".to_string(), "hicolor".to_string());
    assert_eq!(d.dir, "/usr/share/icons/hicolor");
    assert_eq!(d.theme, "hicolor");
    assert_eq!(d.index(), "/usr/share/icons/hicolor/index.theme");
    let slash = DirList::new("/usr/share/icons/hicolor/".to_string(), "hicolor".to_string());
    assert_eq!(slash.index(), "/usr/share/icons/hicolor/index.theme");
}

#[test]
fn find_by_name_ignores_case() {
    let found = find_by_name("HICOLOR".to_string(), dirs()).unwrap();
    assert_eq!(found.dir, "/home/me/.icons/hicolor");
    let same = find_by_name("hicolor".to_string(), dirs()).unwrap();
    assert_eq!(same.dir, found.dir);
}

#[test]
fn find_by_name_skips_generic_components() {
    assert!(find_by_name("icons".to_string(), dirs()).is_none());
    assert!(find_by_name("usr".to_string(), dirs()).is_none());
    assert!(find_by_name("share".to_string(), dirs()).is_none());
    assert!(find_by_name("home".to_string(), dirs()).is_none());
    // "me" is not generic
    assert_eq!(find_by_name("me".to_string(), dirs()).unwrap().theme, "Hicolor");
}

#[test]
fn find_by_name_on_empty_list() {
    assert!(find_by_name("hicolor".to_string(), Vec::new()).is_none());
}

#[test]
fn find_by_name_takes_the_first_match() {
    let v = vec![
        DirList::new("/a/hicolor".to_string(), "one".to_string()),
        DirList::new("/b/hicolor".to_string(), "two".to_string()),
    ];
    assert_eq!(find_by_name("hicolor".to_string(), v).unwrap().theme, "one");
}

#[test]
fn theme_directory_by_alphabetic_name() {
    assert_eq!(
        look_for_theme_directory("Breeze Dark".to_string(), dirs()),
        Some("/usr/share/icons/Breeze-Dark".to_string())
    );
    assert_eq!(
        look_for_theme_directory("breeze dark".to_string(), dirs()),
        Some("/usr/share/icons/Breeze-Dark".to_string())
    );
    // the directory matches but the theme name does not
    assert_eq!(look_for_theme_directory("BreezeDark".to_string(), dirs()), None);
    assert_eq!(look_for_theme_directory("Oxygen".to_string(), dirs()), None);
    let root = vec![DirList::new("/".to_string(), "x".to_string())];
    assert_eq!(look_for_theme_directory("x".to_string(), root), None);
}

#[test]
fn first_index_theme() {
    assert_eq!(
        get_first_index_theme("adwaita".to_string(), dirs()),
        Some("/usr/share/icons/Adwaita/index.theme".to_string())
    );
    assert_eq!(get_first_index_theme("oxygen".to_string(), dirs()), None);
}

#[test]
fn user_config_names_the_theme() {
    let kde = Some("[General]\nfoo = bar\n[Icons]\nTheme=Adwaita\n".to_string());
    assert_eq!(
        check_user_config(kde, "Icons", "Theme", dirs()),
        Some("/usr/share/icons/Adwaita/index.theme".to_string())
    );
}

#[test]
fn user_config_without_theme() {
    assert_eq!(check_user_config(None, "Icons", "Theme", dirs()), None);
    let missing = Some("[Icons]\nOther=Adwaita\n".to_string());
    assert_eq!(check_user_config(missing, "Icons", "Theme", dirs()), None);
    let broken = Some("[Icons\nTheme=Adwaita\n".to_string());
    assert_eq!(check_user_config(broken, "Icons", "Theme", dirs()), None);
    let unknown = Some("[Icons]\nTheme=Oxygen\n".to_string());
    assert_eq!(check_user_config(unknown, "Icons", "Theme", dirs()), None);
}

#[test]
fn user_theme_candidates_in_order() {
    let kde = Some("[Icons]\nTheme=Adwaita\n".to_string());
    let gtk3 = Some("[Settings]\ngtk-icon-theme-name = Breeze-Dark ; comment\n".to_string());
    let gtk4 = Some("[Settings]\ngtk-icon-theme-name=hicolor\n".to_string());
    let all = user_theme(true, kde.clone(), gtk3.clone(), gtk4.clone(), dirs());
    assert_eq!(
        all,
        vec![
            "/usr/share/icons/Adwaita/index.theme",
            "/usr/share/icons/Breeze-Dark/index.theme",
            "/home/me/.icons/hicolor/index.theme",
            "/home/me/.icons/hicolor/index.theme",
        ]
    );
    let none = user_theme(false, kde, gtk3, gtk4, dirs());
    assert_eq!(none, vec!["/home/me/.icons/hicolor/index.theme"]);
    assert!(user_theme(true, None, None, None, Vec::new()).is_empty());
}

#[test]
fn directory_list_keeps_named_themes() {
    let named = IconTheme {
        name: Some("Adwaita".to_string()),
        inherits: None,
        directories: None,
    };
    let list = generate_dir_list(vec![
        ("/usr/share/icons/Adwaita".to_string(), named),
        ("/usr/share/icons/broken".to_string(), IconTheme::empty()),
    ]);
    assert_eq!(list.len(), 1);
    assert_eq!(list[0].dir, "/usr/share/icons/Adwaita");
    assert_eq!(list[0].theme, "Adwaita");
    assert_eq!(theme_index_path("/usr/share/icons/x"), "/usr/share/icons/x/index.theme");
    assert_eq!(theme_index_path("/x/"), "/x//index.theme");
}

#[test]
fn decimal_numbers() {
    for s in ["48", "-3", "+7", "", "-", "+", "12a", " 1", "2147483647", "2147483648", "-2147483648", "-2147483649", "007", "99999999999"] {
        assert_eq!(parse_i32(s), s.parse::<i32>().ok(), "text {:?}", s);
    }
}

#[test]
fn theme_from_index_text() {
    let text = "[Icon Theme]\nName=Test Theme\nInherits=Adwaita, hicolor\nDirectories=48x48/apps,scalable/apps\n\n[48x48/apps]\nSize=48\nType=Fixed\n\n[scalable/apps]\nSize=64\nMinSize=16\nMaxSize=512\nScale=2\nType=Scalable\nThreshold=x\n";
    let t = IconTheme::from_index(text);
    assert_eq!(t.name, Some("Test Theme".to_string()));
    assert_eq!(t.inherits, Some(vec!["Adwaita".to_string(), "hicolor".to_string()]));
    let dirs = t.directories.unwrap();
    assert_eq!(dirs.len(), 2);
    assert_eq!(dirs[0].name, Some("48x48/apps".to_string()));
    assert_eq!(dirs[0].size, Some(48));
    assert_eq!(dirs[0].xdg_type, Some(DirectoryType::Fixed));
    assert_eq!(dirs[0].scale, None);
    assert_eq!(dirs[1].min_size, Some(16));
    assert_eq!(dirs[1].max_size, Some(512));
    assert_eq!(dirs[1].scale, Some(2));
    assert_eq!(dirs[1].threshold, None);
    assert_eq!(dirs[1].xdg_type, Some(DirectoryType::Scalable));
}

#[test]
fn theme_from_broken_index_text() {
    let t = IconTheme::from_index("[Icon Theme\nName=x");
    assert!(t.name.is_none() && t.inherits.is_none() && t.directories.is_none());
    let t = IconTheme::from_index("[Icon Theme]\nComment=nothing\n");
    assert!(t.name.is_none() && t.inherits.is_none() && t.directories.is_none());
}

#[test]
fn theme_lists_split_at_commas() {
    let t = IconTheme::from_index("[Icon Theme]\nInherits=a ,, b,\n");
    assert_eq!(
        t.inherits,
        Some(vec!["a".to_string(), "".to_string(), "b".to_string(), "".to_string()])
    );
    assert!(t.directories.is_none());
    assert!(t.name.is_none());
}

#[test]
fn theme_list_items_lose_unicode_white_space() {
    let t = IconTheme::from_index("[Icon Theme]\nInherits=\u{3000}a\u{a0},\u{2003}b\u{85}\n");
    assert_eq!(t.inherits, Some(vec!["a".to_string(), "b".to_string()]));
}
