use icon_finder::path::{path_components, path_file_name, path_join, path_normal_parts};
use std::path::{Path, PathBuf};

fn std_components(p: &str) -> Vec<String> {
    Path::new(p).iter().map(|c| c.to_str().unwrap().to_string()).collect()
}

#[test]
fn components_of_absolute_path() {
    assert_eq!(
        path_components("/usr/share/icons/hicolor"),
        vec!["/", "usr", "share", "icons", "hicolor"]
    );
}

#[test]
fn components_drop_repeated_slashes_and_dots() {
    assert_eq!(path_components("a//b/./c/"), vec!["a", "b", "c"]);
    assert_eq!(path_components("./a"), vec![".", "a"]);
    assert_eq!(path_components("."), vec!["."]);
    assert_eq!(path_components("/./a/.."), vec!["/", "a", ".."]);
    assert_eq!(path_components(""), Vec::<String>::new());
    assert_eq!(path_normal_parts("/x/y/"), vec!["x", "y"]);
}

#[test]
fn components_agree_with_std() {
    for p in ["/usr//share/./icons/", "./x/./y", "..", "a/../b", "//a", ".hidden/x", "a/.", "/"] {
        assert_eq!(path_components(p), std_components(p), "path {:?}", p);
    }
}

#[test]
fn file_name_of_paths() {
    assert_eq!(path_file_name("/usr/share/icons/hicolor/"), Some("hicolor".to_string()));
    assert_eq!(path_file_name("foo/.."), None);
    assert_eq!(path_file_name("/"), None);
    assert_eq!(path_file_name("."), None);
    assert_eq!(path_file_name(""), None);
    for p in ["/a/b.png", "a/./", "/a//b//", "x"] {
        let expected = Path::new(p).file_name().map(|f| f.to_str().unwrap().to_string());
        assert_eq!(path_file_name(p), expected, "path {:?}", p);
    }
}

#[test]
fn join_like_pathbuf_push() {
    assert_eq!(path_join("/a", "b"), "/a/b");
    assert_eq!(path_join("/a/", "b"), "/a/b");
    assert_eq!(path_join("", "b"), "b");
    assert_eq!(path_join("/a", "/b"), "/b");
    for (base, p) in [("/usr/share", "icons"), ("x/", "y/z"), ("", ""), ("a", "")] {
        let mut expected = PathBuf::from(base);
        expected.push(p);
        assert_eq!(path_join(base, p), expected.to_str().unwrap(), "{:?} + {:?}", base, p);
    }
}

#[test]
fn joining_relative_path_appends_named_parts() {
    let joined = path_join("/usr/share/", "icons/./hicolor");
    assert_eq!(path_normal_parts(&joined), vec!["usr", "share", "icons", "hicolor"]);
    assert_eq!(path_file_name(&joined), path_file_name("icons/./hicolor"));
}
