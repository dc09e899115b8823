use icon_finder::size::{directory_matches_size, directory_size_distance};
use icon_finder::theme::{Directory, DirectoryType};

fn dir(size: Option<i32>, xdg_type: Option<DirectoryType>) -> Directory {
    Directory {
        name: Some("48x48/apps".to_string()),
        size,
        scale: None,
        min_size: None,
        max_size: None,
        threshold: None,
        xdg_type,
    }
}

#[test]
fn fixed_directory_matches_only_its_size() {
    let d = dir(Some(48), Some(DirectoryType::Fixed));
    assert!(directory_matches_size(d.clone(), 48, 1));
    assert!(!directory_matches_size(d.clone(), 47, 1));
    assert!(!directory_matches_size(d, 48, 2));
}

#[test]
fn scale_must_match() {
    let mut d = dir(Some(24), Some(DirectoryType::Fixed));
    d.scale = Some(2);
    assert!(directory_matches_size(d.clone(), 24, 2));
    assert!(!directory_matches_size(d, 24, 1));
}

#[test]
fn directory_without_size_never_matches() {
    assert!(!directory_matches_size(dir(None, Some(DirectoryType::Fixed)), 48, 1));
    assert_eq!(directory_size_distance(dir(None, Some(DirectoryType::Fixed)), 48, 1), 0);
}

#[test]
fn scalable_directory_matches_its_range() {
    let mut d = dir(Some(48), Some(DirectoryType::Scalable));
    d.min_size = Some(16);
    d.max_size = Some(256);
    assert!(directory_matches_size(d.clone(), 16, 1));
    assert!(directory_matches_size(d.clone(), 256, 1));
    assert!(!directory_matches_size(d.clone(), 15, 1));
    assert!(!directory_matches_size(d.clone(), 257, 1));
    assert_eq!(directory_size_distance(d.clone(), 100, 1), 0);
    assert_eq!(directory_size_distance(d.clone(), 10, 1), 6);
    assert_eq!(directory_size_distance(d, 300, 1), 44);
}

#[test]
fn threshold_directory_defaults_to_two() {
    let d = dir(Some(48), None);
    assert!(directory_matches_size(d.clone(), 46, 1));
    assert!(directory_matches_size(d.clone(), 50, 1));
    assert!(!directory_matches_size(d.clone(), 45, 1));
    assert!(!directory_matches_size(d, 51, 1));
}

#[test]
fn fixed_distance_is_absolute_difference() {
    let d = dir(Some(48), Some(DirectoryType::Fixed));
    assert_eq!(directory_size_distance(d.clone(), 32, 1), 16);
    assert_eq!(directory_size_distance(d.clone(), 64, 1), 16);
    assert_eq!(directory_size_distance(d, 24, 2), 0);
}

#[test]
fn threshold_distance_squares_the_wanted_size() {
    // Above the range the wanted size is multiplied by itself, not by the scale.
    let d = dir(Some(48), None);
    assert_eq!(directory_size_distance(d.clone(), 48, 1), 48 * 48 - 48);
    assert_eq!(directory_size_distance(d.clone(), 4, 1), 48 - 4);
    let mut low = dir(Some(48), None);
    low.min_size = Some(10);
    assert_eq!(directory_size_distance(low, 20, 1), -10);
}

#[test]
fn matching_fixed_or_scalable_directory_is_at_distance_zero() {
    let f = dir(Some(32), Some(DirectoryType::Fixed));
    assert!(directory_matches_size(f.clone(), 32, 1));
    assert_eq!(directory_size_distance(f, 32, 1), 0);
    let mut s = dir(Some(32), Some(DirectoryType::Scalable));
    s.max_size = Some(64);
    assert!(directory_matches_size(s.clone(), 40, 1));
    assert_eq!(directory_size_distance(s, 40, 1), 0);
}
