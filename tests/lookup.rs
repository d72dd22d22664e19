use icon_finder::{
    find_best_icon, find_fallback_theme, find_icon, get_user_selected_theme, lookup_fallback_icon,
    lookup_icon, new, FileIndex, Theme, ThemeDirectory, ThemeDirectoryType, UnloadedTheme,
};

fn directory(name: &str, size: i16, directory_type: ThemeDirectoryType) -> ThemeDirectory {
    ThemeDirectory {
        name: name.to_owned(),
        size,
        scale: None,
        context: None,
        directory_type,
        max_size: None,
        min_size: None,
        threshold: None,
    }
}

fn theme(name: &str, directories: Vec<ThemeDirectory>, inherits: Vec<Theme>) -> Theme {
    Theme {
        name: name.to_owned(),
        comment: String::new(),
        inherits,
        directories,
        location: String::new(),
    }
}

fn files(paths: &[&str]) -> FileIndex {
    FileIndex::new(paths.iter().map(|p| p.to_string()).collect())
}

#[test]
fn fixed_directory_exact_hit() {
    let t = theme("T", vec![directory("48x48", 48, ThemeDirectoryType::Fixed)], vec![]);
    let fs = files(&["/usr/share/icons/T/48x48/foo.png"]);
    assert_eq!(
        find_icon("foo", 48, 1, t, &fs),
        Some("/usr/share/icons/T/48x48/foo.png".to_string())
    );
}

#[test]
fn threshold_directory_exact_hit() {
    let mut d = directory("48x48", 48, ThemeDirectoryType::Threshold);
    d.threshold = Some(4);
    let t = theme("T", vec![d], vec![]);
    let fs = files(&["/usr/share/icons/T/48x48/foo.png"]);
    assert_eq!(
        find_icon("foo", 50, 1, t, &fs),
        Some("/usr/share/icons/T/48x48/foo.png".to_string())
    );
}

#[test]
fn scalable_directory_closest_hit() {
    let mut d = directory("128x128", 128, ThemeDirectoryType::Scalable);
    d.min_size = Some(96);
    d.max_size = Some(160);
    assert_eq!(icon_finder::directory_size_distance(&d, 32, 1), 64);
    assert!(!icon_finder::directory_matches_size(&d, 32, 1));
    let t = theme("T", vec![d], vec![]);
    let fs = files(&["/usr/share/icons/T/128x128/bar.png"]);
    assert_eq!(
        find_icon("bar", 32, 1, t, &fs),
        Some("/usr/share/icons/T/128x128/bar.png".to_string())
    );
}

#[test]
fn missing_icon_is_absent() {
    let t = theme("T", vec![directory("16x16", 16, ThemeDirectoryType::Fixed)], vec![]);
    let fs = files(&["/usr/share/icons/T/16x16/other.png", "/usr/share/icons/baz.png"]);
    assert_eq!(find_icon("baz", 16, 1, t, &fs), None);
}

#[test]
fn best_icon_prefers_names_over_parents() {
    let parent = theme("P", vec![directory("24x24", 24, ThemeDirectoryType::Fixed)], vec![]);
    let t = theme("T", vec![directory("24x24", 24, ThemeDirectoryType::Fixed)], vec![parent]);
    let fs = files(&["/usr/share/icons/T/24x24/b.png", "/usr/share/icons/P/24x24/a.png"]);
    assert_eq!(
        find_best_icon(vec!["a", "b"], 24, 1, t, &fs),
        Some("/usr/share/icons/T/24x24/b.png".to_string())
    );
}

#[test]
fn find_icon_prefers_own_theme_over_parents() {
    let parent = theme("P", vec![directory("24x24", 24, ThemeDirectoryType::Fixed)], vec![]);
    let t = theme("T", vec![directory("24x24", 24, ThemeDirectoryType::Fixed)], vec![parent]);
    let fs = files(&["/usr/share/icons/T/24x24/b.png", "/usr/share/icons/P/24x24/a.png"]);
    assert_eq!(
        find_icon("a", 24, 1, t, &fs),
        Some("/usr/share/icons/P/24x24/a.png".to_string())
    );
}

#[test]
fn exact_match_beats_nearer_inexact_match() {
    let mut wide = directory("scalable", 64, ThemeDirectoryType::Scalable);
    wide.min_size = Some(16);
    wide.max_size = Some(256);
    let t = theme(
        "T",
        vec![directory("47x47", 47, ThemeDirectoryType::Fixed), wide],
        vec![],
    );
    let fs = files(&["/usr/share/icons/T/47x47/foo.png", "/usr/local/share/icons/T/scalable/foo.svg"]);
    assert_eq!(
        find_icon("foo", 48, 1, t, &fs),
        Some("/usr/local/share/icons/T/scalable/foo.svg".to_string())
    );
}

#[test]
fn closest_picks_smallest_distance_first_on_ties() {
    let t = theme(
        "T",
        vec![
            directory("16x16", 16, ThemeDirectoryType::Fixed),
            directory("40x40", 40, ThemeDirectoryType::Fixed),
            directory("56x56", 56, ThemeDirectoryType::Fixed),
        ],
        vec![],
    );
    let fs = files(&[
        "/usr/share/icons/T/16x16/foo.png",
        "/usr/share/icons/T/40x40/foo.xpm",
        "/usr/share/icons/T/56x56/foo.png",
    ]);
    assert_eq!(
        lookup_icon("foo", 48, 1, &t, &fs),
        Some("/usr/share/icons/T/40x40/foo.xpm".to_string())
    );
}

#[test]
fn exact_phase_follows_directory_root_extension_order() {
    let t = theme(
        "T",
        vec![
            directory("a", 48, ThemeDirectoryType::Fixed),
            directory("b", 48, ThemeDirectoryType::Fixed),
        ],
        vec![],
    );
    let fs = files(&[
        "/usr/local/share/icons/T/a/foo.png",
        "/usr/share/icons/T/a/foo.xpm",
        "/usr/share/icons/T/a/foo.svg",
        "~/.icons/T/b/foo.png",
    ]);
    assert_eq!(
        lookup_icon("foo", 48, 1, &t, &fs),
        Some("/usr/share/icons/T/a/foo.svg".to_string())
    );
}

#[test]
fn resolve_stops_at_first_theme_with_any_match() {
    let near = theme("Near", vec![directory("48x48", 48, ThemeDirectoryType::Fixed)], vec![]);
    let far = theme("Far", vec![directory("16x16", 16, ThemeDirectoryType::Fixed)], vec![]);
    let middle = theme("Middle", vec![], vec![far]);
    let t = theme("T", vec![], vec![middle, near]);
    let fs = files(&["/usr/share/icons/Far/16x16/foo.png", "/usr/share/icons/Near/48x48/foo.png"]);
    assert_eq!(
        find_icon("foo", 48, 1, t, &fs),
        Some("/usr/share/icons/Far/16x16/foo.png".to_string())
    );
}

#[test]
fn best_icon_falls_back_to_unthemed() {
    let t = theme("T", vec![directory("24x24", 24, ThemeDirectoryType::Fixed)], vec![]);
    let fs = files(&["/usr/local/share/icons/b.xpm", "~/.icons/c.png"]);
    assert_eq!(
        find_best_icon(vec!["a", "b", "c"], 24, 1, t, &fs),
        Some("/usr/local/share/icons/b.xpm".to_string())
    );
}

#[test]
fn best_icon_with_nothing_found_is_absent() {
    let t = theme("T", vec![], vec![]);
    let fs = files(&["/usr/share/icons/T/24x24/a.png"]);
    assert_eq!(find_best_icon(vec!["a"], 24, 1, t, &fs), None);
    let t = theme("T", vec![], vec![]);
    assert_eq!(find_best_icon(vec![], 24, 1, t, &fs), None);
}

#[test]
fn unthemed_lookup_order() {
    let fs = files(&["/usr/share/icons/foo.svg", "/usr/share/icons/foo.xpm", "/usr/local/share/icons/foo.png"]);
    assert_eq!(lookup_fallback_icon("foo", &fs), Some("/usr/share/icons/foo.svg".to_string()));
    assert_eq!(lookup_fallback_icon("bar", &fs), None);
}

#[test]
fn repeated_lookups_agree() {
    let make = || theme("T", vec![directory("32x32", 32, ThemeDirectoryType::Fixed)], vec![]);
    let fs = files(&["/usr/share/icons/T/32x32/foo.png", "/usr/share/icons/foo.png"]);
    let first = find_icon("foo", 24, 1, make(), &fs);
    let second = find_icon("foo", 24, 1, make(), &fs);
    assert_eq!(first, second);
    assert_eq!(first, Some("/usr/share/icons/T/32x32/foo.png".to_string()));
    let best_first = find_best_icon(vec!["x", "foo"], 24, 1, make(), &fs);
    let best_second = find_best_icon(vec!["x", "foo"], 24, 1, make(), &fs);
    assert_eq!(best_first, best_second);
    assert_eq!(best_first, Some("/usr/share/icons/T/32x32/foo.png".to_string()));
}

#[test]
fn finder_instance_uses_its_theme() {
    let finder = new(theme("T", vec![directory("48x48", 48, ThemeDirectoryType::Fixed)], vec![]));
    let fs = files(&["~/.icons/T/48x48/foo.png"]);
    assert_eq!(finder.find_icon("foo", 48, 1, &fs), Some("~/.icons/T/48x48/foo.png".to_string()));
}

#[test]
fn fallback_theme_description() {
    let fs = files(&["/usr/local/share/icons/index.theme", "/usr/share/icons/index.theme"]);
    let found = find_fallback_theme(&fs).map(|t| t.location);
    assert_eq!(found, Some("/usr/share/icons/index.theme".to_string()));
    assert!(find_fallback_theme(&files(&[])).is_none());
}

#[test]
fn unloaded_theme_keeps_location() {
    let loaded = UnloadedTheme { location: "/usr/share/icons/index.theme".to_string() }.load();
    assert_eq!(loaded.location, "/usr/share/icons/index.theme");
    assert_eq!(loaded.name, "Insert name of theme");
    assert_eq!(loaded.comment, "Insert comment after it's read");
    assert!(loaded.inherits.is_empty());
    assert!(loaded.directories.is_empty());
}

#[test]
fn user_selected_theme_location() {
    assert_eq!(get_user_selected_theme(), "/usr/share/themes/Adwaita/index.theme");
}

#[test]
fn file_index_membership() {
    let fs = files(&["/a/b.png"]);
    assert!(fs.path_exists(&"/a/b.png".to_string()));
    assert!(!fs.path_exists(&"/a/b.svg".to_string()));
}
