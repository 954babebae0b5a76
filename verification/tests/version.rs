use moj_archive::error::MojError;
use moj_archive::version::{
    extract_release_times, is_april_fools, is_first_of_april, prepare_versions, select_versions,
    verify_release_times, Config, MissingVersion, Version, VersionManifest,
};

fn version(id: &str, release_time: i64, type_: &str) -> Version {
    Version { id: id.to_string(), release_time, type_: type_.to_string() }
}

fn config(min: &str, max: &str, include_snapshots: bool) -> Config {
    Config { min_version: min.to_string(), max_version: max.to_string(), include_snapshots }
}

// 2015-04-01T00:00:00Z
const APRIL_FIRST_2015: i64 = 1_427_846_400;

#[test]
fn the_first_of_april_is_recognised() {
    assert!(is_first_of_april(Some(4), Some(1)));
    assert!(!is_first_of_april(Some(4), Some(2)));
    assert!(!is_first_of_april(Some(1), Some(4)));
    assert!(!is_first_of_april(Some(3), Some(31)));
    assert!(!is_first_of_april(None, Some(1)));
    assert!(!is_first_of_april(Some(4), None));
    assert!(!is_first_of_april(None, None));
}

#[test]
fn april_fools_releases_are_told_by_their_utc_date() {
    assert!(is_april_fools(&version("15w14a", APRIL_FIRST_2015, "snapshot")));
    assert!(is_april_fools(&version("x", APRIL_FIRST_2015 + 86_399, "snapshot")));
    assert!(!is_april_fools(&version("x", APRIL_FIRST_2015 - 1, "snapshot")));
    assert!(!is_april_fools(&version("x", APRIL_FIRST_2015 + 86_400, "snapshot")));
    // 2024-01-04T00:00:00Z: the fourth of January, not the first of April.
    assert!(!is_april_fools(&version("x", 1_704_326_400, "release")));
    // 1970-04-01, and 1969-04-01 before the epoch.
    assert!(is_april_fools(&version("x", 90 * 86_400, "release")));
    assert!(is_april_fools(&version("x", -275 * 86_400, "release")));
    assert!(!is_april_fools(&version("x", 0, "release")));
}

#[test]
fn an_instant_beyond_the_calendar_is_no_april_fools() {
    assert!(!is_april_fools(&version("x", i64::MAX, "release")));
    assert!(!is_april_fools(&version("x", i64::MIN, "release")));
}

#[test]
fn release_times_of_both_ends_are_found() {
    let versions = vec![version("1.0", 100, "release"), version("1.1", 200, "release"), version("1.2", 300, "release")];
    assert_eq!(extract_release_times(&versions, &config("1.0", "1.2", false)), (Some(100), Some(300)));
    assert_eq!(extract_release_times(&versions, &config("1.1", "1.1", false)), (Some(200), None));
    assert_eq!(extract_release_times(&versions, &config("0.9", "1.2", false)), (None, Some(300)));
    assert_eq!(extract_release_times(&versions, &config("1.0", "2.0", false)), (Some(100), None));
    assert_eq!(extract_release_times(&versions, &config("a", "b", false)), (None, None));
    assert_eq!(extract_release_times(&Vec::new(), &config("1.0", "1.2", false)), (None, None));
}

#[test]
fn the_last_listing_of_a_name_counts() {
    let versions = vec![version("1.0", 100, "release"), version("1.2", 300, "release"), version("1.0", 150, "release")];
    assert_eq!(extract_release_times(&versions, &config("1.0", "1.2", false)), (Some(150), Some(300)));
}

#[test]
fn both_ends_must_be_found() {
    assert_eq!(verify_release_times((Some(1), Some(2))), Ok((1, 2)));
    assert_eq!(verify_release_times((None, Some(2))), Err(MissingVersion::Minimum));
    assert_eq!(verify_release_times((Some(1), None)), Err(MissingVersion::Maximum));
    assert_eq!(verify_release_times((None, None)), Err(MissingVersion::Both));
}

#[test]
fn a_missing_end_is_a_user_error_with_a_message() {
    let config = config("1.0", "1.2", false);
    assert_eq!(MissingVersion::Minimum.error(), MojError::UserError);
    assert_eq!(MissingVersion::Maximum.error(), MojError::UserError);
    assert_eq!(MissingVersion::Both.error(), MojError::UserError);
    assert_eq!(MissingVersion::Minimum.message(&config), "Minimum version 1.0 not found in version manifest");
    assert_eq!(MissingVersion::Maximum.message(&config), "Maximum version 1.2 not found in version manifest");
    assert_eq!(
        MissingVersion::Both.message(&config),
        "Neither minimum version 1.0 nor maximum version 1.2 found in version manifest"
    );
}

#[test]
fn selection_keeps_the_range_and_drops_snapshots_and_april_fools() {
    let versions = vec![
        version("old", 50, "release"),
        version("1.0", 100, "release"),
        version("snap", 150, "snapshot"),
        version("beta", 160, "old_beta"),
        version("fools", APRIL_FIRST_2015 + 3600, "release"),
        version("1.2", 2_000_000_000, "release"),
        version("new", 2_000_000_001, "release"),
    ];
    let selected = select_versions(&versions, 100, 2_000_000_000, false);
    let names: Vec<&str> = selected.iter().map(|version| version.id.as_str()).collect();
    assert_eq!(names, vec!["1.0", "beta", "1.2"]);
    assert_eq!(selected[0], versions[1]);
    let selected = select_versions(&versions, 100, 2_000_000_000, true);
    let names: Vec<&str> = selected.iter().map(|version| version.id.as_str()).collect();
    assert_eq!(names, vec!["1.0", "snap", "beta", "1.2"]);
}

#[test]
fn an_empty_range_selects_nothing() {
    let versions = vec![version("1.0", 100, "release")];
    assert!(select_versions(&versions, 101, 99, true).is_empty());
    assert!(select_versions(&Vec::new(), i64::MIN, i64::MAX, true).is_empty());
}

#[test]
fn the_manifest_is_sorted_then_filtered() {
    let manifest = VersionManifest {
        versions: vec![
            version("1.2", 300, "release"),
            version("snap-b", 200, "snapshot"),
            version("1.1", 200, "release"),
            version("1.0", 100, "release"),
            version("0.9", 50, "release"),
            version("1.3", 400, "release"),
        ],
    };
    let (all, selected) = prepare_versions(manifest, &config("1.0", "1.2", false)).unwrap();
    let names: Vec<&str> = all.iter().map(|version| version.id.as_str()).collect();
    assert_eq!(names, vec!["0.9", "1.0", "snap-b", "1.1", "1.2", "1.3"]);
    let names: Vec<&str> = selected.iter().map(|version| version.id.as_str()).collect();
    assert_eq!(names, vec!["1.0", "1.1", "1.2"]);
}

#[test]
fn a_manifest_without_an_end_of_the_range_is_refused() {
    let manifest = VersionManifest { versions: vec![version("1.0", 100, "release")] };
    assert_eq!(prepare_versions(manifest.clone(), &config("1.0", "1.2", false)), Err(MissingVersion::Maximum));
    assert_eq!(prepare_versions(manifest.clone(), &config("0.1", "1.0", false)), Err(MissingVersion::Minimum));
    assert_eq!(prepare_versions(manifest, &config("a", "b", false)), Err(MissingVersion::Both));
}
