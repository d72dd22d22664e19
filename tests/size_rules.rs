use icon_finder::{directory_matches_size, directory_size_distance, ThemeDirectory, ThemeDirectoryType};

fn main_directory(
    directory_type: ThemeDirectoryType,
    min_size: Option<i16>,
    max_size: Option<i16>,
    threshold: Option<i16>,
) -> ThemeDirectory {
    ThemeDirectory {
        name: "Main".to_owned(),
        size: 512,
        scale: Some(1),
        context: Some("actions".to_owned()),
        directory_type,
        min_size,
        max_size,
        threshold,
    }
}

#[test]
fn test_directory_matches_size_different_scale() {
    let theme_directory = main_directory(ThemeDirectoryType::Fixed, None, None, None);
    assert_eq!(directory_matches_size(&theme_directory, 512, 2), false);
}

#[test]
fn test_directory_matches_size_fixed() {
    let theme_directory = main_directory(ThemeDirectoryType::Fixed, None, None, None);
    assert_eq!(directory_matches_size(&theme_directory, 512, 1), true);
    assert_eq!(directory_matches_size(&theme_directory, 256, 1), false);
}

#[test]
fn test_directory_matches_size_scalable() {
    let theme_directory = main_directory(ThemeDirectoryType::Scalable, Some(256), Some(1024), None);
    assert_eq!(directory_matches_size(&theme_directory, 128, 1), false);
    assert_eq!(directory_matches_size(&theme_directory, 256, 1), true);
    assert_eq!(directory_matches_size(&theme_directory, 511, 1), true);
    assert_eq!(directory_matches_size(&theme_directory, 512, 1), true);
    assert_eq!(directory_matches_size(&theme_directory, 1024, 1), true);
    assert_eq!(directory_matches_size(&theme_directory, 2048, 1), false);
}

#[test]
fn test_directory_matches_size_threshold() {
    let theme_directory = main_directory(ThemeDirectoryType::Threshold, Some(256), Some(1024), Some(128));
    assert_eq!(directory_matches_size(&theme_directory, 128, 1), false);
    assert_eq!(directory_matches_size(&theme_directory, 384, 1), true);
    assert_eq!(directory_matches_size(&theme_directory, 512, 1), true);
    assert_eq!(directory_matches_size(&theme_directory, 640, 1), true);
    assert_eq!(directory_matches_size(&theme_directory, 1025, 1), false);
}

#[test]
fn test_directory_size_distance_fixed() {
    let theme_directory = main_directory(ThemeDirectoryType::Fixed, Some(256), Some(1024), Some(128));
    assert_eq!(directory_size_distance(&theme_directory, 512, 1), 0);
    assert_eq!(directory_size_distance(&theme_directory, 256, 2), 0);
    assert_eq!(directory_size_distance(&theme_directory, 100, 1), 412);
    assert_eq!(directory_size_distance(&theme_directory, 1512, 1), 1000);
}

#[test]
fn test_directory_size_distance_scalable() {
    let theme_directory = main_directory(ThemeDirectoryType::Scalable, Some(256), Some(1024), Some(128));
    assert_eq!(directory_size_distance(&theme_directory, 128, 1), 128);
    assert_eq!(directory_size_distance(&theme_directory, 64, 2), 128);
    assert_eq!(directory_size_distance(&theme_directory, 256, 1), 0);
    assert_eq!(directory_size_distance(&theme_directory, 512, 1), 0);
    assert_eq!(directory_size_distance(&theme_directory, 1024, 1), 0);
    assert_eq!(directory_size_distance(&theme_directory, 2024, 1), 1000);
}

#[test]
fn test_directory_size_distance_threshold() {
    let theme_directory = main_directory(ThemeDirectoryType::Threshold, Some(256), Some(1024), Some(128));
    assert_eq!(directory_size_distance(&theme_directory, 256, 1), 256);
    assert_eq!(directory_size_distance(&theme_directory, 384, 1), 0);
    assert_eq!(directory_size_distance(&theme_directory, 512, 1), 0);
    assert_eq!(directory_size_distance(&theme_directory, 640, 1), 0);
    assert_eq!(directory_size_distance(&theme_directory, 768, 1), 256);
}

#[test]
fn fixed_directory_defaults_to_scale_one() {
    let mut theme_directory = main_directory(ThemeDirectoryType::Fixed, None, None, None);
    theme_directory.scale = None;
    assert!(directory_matches_size(&theme_directory, 512, 1));
    assert!(!directory_matches_size(&theme_directory, 512, 2));
    assert_eq!(directory_size_distance(&theme_directory, 512, 2), 512);
}

#[test]
fn threshold_defaults_to_two() {
    let theme_directory = main_directory(ThemeDirectoryType::Threshold, None, None, None);
    assert!(directory_matches_size(&theme_directory, 510, 1));
    assert!(directory_matches_size(&theme_directory, 514, 1));
    assert!(!directory_matches_size(&theme_directory, 509, 1));
    assert!(!directory_matches_size(&theme_directory, 515, 1));
    assert_eq!(directory_size_distance(&theme_directory, 509, 1), 3);
    assert_eq!(directory_size_distance(&theme_directory, 515, 1), 3);
}

#[test]
fn scalable_bounds_default_to_size() {
    let theme_directory = main_directory(ThemeDirectoryType::Scalable, None, None, None);
    assert!(directory_matches_size(&theme_directory, 512, 1));
    assert!(!directory_matches_size(&theme_directory, 511, 1));
    assert_eq!(directory_size_distance(&theme_directory, 500, 1), 12);
}

#[test]
fn distance_compares_device_pixels() {
    let mut theme_directory = main_directory(ThemeDirectoryType::Fixed, None, None, None);
    theme_directory.size = 24;
    theme_directory.scale = Some(2);
    assert_eq!(directory_size_distance(&theme_directory, 48, 1), 0);
    assert_eq!(directory_size_distance(&theme_directory, 24, 1), 24);
    assert!(!directory_matches_size(&theme_directory, 48, 1));
    assert!(directory_matches_size(&theme_directory, 24, 2));
}

#[test]
fn extreme_sizes_do_not_overflow() {
    let mut theme_directory = main_directory(ThemeDirectoryType::Fixed, None, None, None);
    theme_directory.size = i16::MAX;
    theme_directory.scale = Some(i16::MAX);
    assert_eq!(
        directory_size_distance(&theme_directory, i16::MIN, i16::MAX),
        (i16::MAX as i64) * (i16::MAX as i64) - (i16::MIN as i64) * (i16::MAX as i64)
    );
    theme_directory.directory_type = ThemeDirectoryType::Threshold;
    theme_directory.threshold = Some(i16::MAX);
    assert!(!directory_matches_size(&theme_directory, i16::MIN, i16::MAX));
    assert!(directory_matches_size(&theme_directory, 0, i16::MAX));
}
