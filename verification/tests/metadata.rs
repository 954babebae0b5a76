use moj_archive::index::ObjectId;
use moj_archive::ledger::SavedInfo;
use moj_archive::metadata::{
    commit_message, find_version_tree_and_info, ledger_from_entries, split_message, TaggedCommit,
};

fn entries(pairs: &[(&str, Option<i64>)]) -> Vec<(String, Option<i64>)> {
    pairs.iter().map(|(key, value)| (key.to_string(), *value)).collect()
}

#[test]
fn a_ledger_is_written_as_flat_integer_pairs() {
    assert_eq!(
        SavedInfo::new(3, 1).to_toml().unwrap(),
        "decompiled_classes_version = 3\nlibraries_output_version = 1\n"
    );
    assert_eq!(
        SavedInfo::new(0, 4_294_967_295).to_toml().unwrap(),
        "decompiled_classes_version = 0\nlibraries_output_version = 4294967295\n"
    );
}

#[test]
fn a_written_ledger_reads_back() {
    for classes in [0u32, 1, 3, 77, u32::MAX] {
        for libraries in [0u32, 1, 2, u32::MAX] {
            let info = SavedInfo::new(classes, libraries);
            assert_eq!(SavedInfo::from_toml(&info.to_toml().unwrap()), info);
        }
    }
}

#[test]
fn a_body_is_read_key_by_key() {
    assert_eq!(
        SavedInfo::from_toml("libraries_output_version = 1\ndecompiled_classes_version = 3\n"),
        SavedInfo::new(3, 1)
    );
    assert_eq!(SavedInfo::from_toml("decompiled_classes_version = 2"), SavedInfo::new(2, 0));
    assert_eq!(SavedInfo::from_toml("libraries_output_version = 5"), SavedInfo::new(0, 5));
    assert_eq!(SavedInfo::from_toml(""), SavedInfo::new(0, 0));
}

#[test]
fn the_old_key_of_the_classes_is_still_read() {
    assert_eq!(SavedInfo::from_toml("output_version = 2\n"), SavedInfo::new(2, 0));
    assert_eq!(
        SavedInfo::from_toml("output_version = 2\nlibraries_output_version = 1\n"),
        SavedInfo::new(2, 1)
    );
}

#[test]
fn unknown_keys_are_passed_over() {
    assert_eq!(
        SavedInfo::from_toml("comment = \"hello\"\ndecompiled_classes_version = 3\n[extra]\nx = 1\n"),
        SavedInfo::new(3, 0)
    );
}

#[test]
fn a_malformed_body_reads_as_all_zero() {
    assert_eq!(SavedInfo::from_toml("this is not toml"), SavedInfo::default());
    assert_eq!(SavedInfo::from_toml("decompiled_classes_version = "), SavedInfo::default());
    assert_eq!(
        SavedInfo::from_toml("decompiled_classes_version = \"3\"\nlibraries_output_version = 1\n"),
        SavedInfo::default()
    );
    assert_eq!(
        SavedInfo::from_toml("decompiled_classes_version = -1\nlibraries_output_version = 1\n"),
        SavedInfo::default()
    );
    assert_eq!(
        SavedInfo::from_toml("decompiled_classes_version = 4294967296\nlibraries_output_version = 1\n"),
        SavedInfo::default()
    );
    assert_eq!(
        SavedInfo::from_toml("decompiled_classes_version = 3.0\nlibraries_output_version = 1\n"),
        SavedInfo::default()
    );
    assert_eq!(
        SavedInfo::from_toml("decompiled_classes_version = 3\nlibraries_output_version = true\n"),
        SavedInfo::default()
    );
    assert_eq!(
        SavedInfo::from_toml("decompiled_classes_version = 3\noutput_version = 3\n"),
        SavedInfo::default()
    );
    assert_eq!(
        SavedInfo::from_toml("decompiled_classes_version = 3\ndecompiled_classes_version = 3\n"),
        SavedInfo::default()
    );
}

#[test]
fn the_largest_version_is_read() {
    assert_eq!(
        SavedInfo::from_toml("decompiled_classes_version = 4294967295\n"),
        SavedInfo::new(4_294_967_295, 0)
    );
}

#[test]
fn entries_give_a_ledger() {
    assert_eq!(
        ledger_from_entries(&entries(&[
            ("decompiled_classes_version", Some(3)),
            ("libraries_output_version", Some(1)),
        ])),
        Some(SavedInfo::new(3, 1))
    );
    assert_eq!(ledger_from_entries(&Vec::new()), Some(SavedInfo::new(0, 0)));
    assert_eq!(
        ledger_from_entries(&entries(&[("output_version", Some(9)), ("other", None)])),
        Some(SavedInfo::new(9, 0))
    );
}

#[test]
fn malformed_entries_give_no_ledger() {
    assert_eq!(ledger_from_entries(&entries(&[("decompiled_classes_version", None)])), None);
    assert_eq!(ledger_from_entries(&entries(&[("output_version", None)])), None);
    assert_eq!(ledger_from_entries(&entries(&[("libraries_output_version", None)])), None);
    assert_eq!(ledger_from_entries(&entries(&[("libraries_output_version", Some(-1))])), None);
    assert_eq!(
        ledger_from_entries(&entries(&[("libraries_output_version", Some(4_294_967_296))])),
        None
    );
    assert_eq!(
        ledger_from_entries(&entries(&[
            ("decompiled_classes_version", Some(1)),
            ("output_version", Some(1)),
        ])),
        None
    );
}

#[test]
fn the_first_entry_under_a_key_counts() {
    assert_eq!(
        ledger_from_entries(&entries(&[
            ("libraries_output_version", Some(2)),
            ("libraries_output_version", None),
        ])),
        Some(SavedInfo::new(0, 2))
    );
}

#[test]
fn a_commit_message_is_summary_blank_line_body() {
    assert_eq!(
        commit_message("1.20.4", "decompiled_classes_version = 3\n"),
        "Version 1.20.4\n\ndecompiled_classes_version = 3\n"
    );
    assert_eq!(commit_message("", ""), "Version \n\n");
}

#[test]
fn a_message_splits_at_its_first_blank_line() {
    assert_eq!(split_message("Version 1.0\n\nbody"), Some(("Version 1.0", "body")));
    assert_eq!(split_message("a\n\nb\n\nc"), Some(("a", "b\n\nc")));
    assert_eq!(split_message("a\n\n\nb"), Some(("a", "\nb")));
    assert_eq!(split_message("\n\n"), Some(("", "")));
    assert_eq!(split_message("a\n\n"), Some(("a", "")));
    assert_eq!(split_message("\u{e9}t\u{e9}\n\n\u{fc}ber"), Some(("\u{e9}t\u{e9}", "\u{fc}ber")));
}

#[test]
fn a_message_without_blank_line_has_no_body() {
    assert_eq!(split_message("Version 1.0"), None);
    assert_eq!(split_message("Version 1.0\nbody"), None);
    assert_eq!(split_message(""), None);
    assert_eq!(split_message("\n"), None);
    assert_eq!(split_message("a\n \nb"), None);
}

#[test]
fn a_composed_message_splits_into_its_parts() {
    let body = "decompiled_classes_version = 3\n\nlibraries_output_version = 1\n";
    let message = commit_message("24w14a", body);
    assert_eq!(split_message(&message), Some(("Version 24w14a", body)));
}

#[test]
fn lookup_reads_tree_and_ledger() {
    let tree = ObjectId { bytes: [5; 20] };
    let commit = TaggedCommit {
        tree,
        message: "Version 1.0\n\ndecompiled_classes_version = 2\nlibraries_output_version = 1\n".to_string(),
    };
    assert_eq!(find_version_tree_and_info(Some(&commit)), Some((tree, SavedInfo::new(2, 1))));
}

#[test]
fn lookup_of_an_untagged_version_finds_nothing() {
    assert_eq!(find_version_tree_and_info(None), None);
}

#[test]
fn lookup_defaults_to_the_zero_ledger() {
    let tree = ObjectId { bytes: [5; 20] };
    let without_body = TaggedCommit { tree, message: "Version 1.0".to_string() };
    assert_eq!(find_version_tree_and_info(Some(&without_body)), Some((tree, SavedInfo::default())));
    let malformed = TaggedCommit { tree, message: "Version 1.0\n\n{{{".to_string() };
    assert_eq!(find_version_tree_and_info(Some(&malformed)), Some((tree, SavedInfo::default())));
}

#[test]
fn lookup_reads_the_ledger_whatever_the_summary_says() {
    let tree = ObjectId { bytes: [5; 20] };
    let commit = TaggedCommit {
        tree,
        message: "decompiled_classes_version = 9\n\nlibraries_output_version = 1\n".to_string(),
    };
    assert_eq!(find_version_tree_and_info(Some(&commit)), Some((tree, SavedInfo::new(0, 1))));
}
