use moj_archive::parchment::{index_parchment_mc_versions, parchment_version, parchment_versions};
use moj_archive::version::Version;

fn versions(ids: &[&str]) -> Vec<Version> {
    ids.iter()
        .enumerate()
        .map(|(place, id)| Version { id: id.to_string(), release_time: place as i64, type_: "release".to_string() })
        .collect()
}

const TABLE_IDS: [&str; 12] = [
    "1.16.5", "1.17.1", "1.18.2", "1.19.2", "1.19.3", "1.19.4", "1.20.1", "1.20.2", "1.20.3",
    "1.20.4", "1.20.6", "1.21",
];

#[test]
fn the_table_lists_the_mapping_releases_in_order() {
    let table = parchment_versions();
    let entries: Vec<(&str, &str)> = table.iter().map(|(key, value)| (*key, *value)).collect();
    assert_eq!(
        entries,
        vec![
            ("1.16.5", "2022.03.06"),
            ("1.17.1", "2021.12.12"),
            ("1.18.2", "2022.11.06"),
            ("1.19.2", "2022.11.27"),
            ("1.19.3", "2023.06.25"),
            ("1.19.4", "2023.06.26"),
            ("1.20.1", "2023.09.03"),
            ("1.20.2", "2023.12.10"),
            ("1.20.3", "2023.12.31"),
            ("1.20.4", "2024.04.14"),
            ("1.20.6", "2024.06.16"),
            ("1.21", "2024.07.28"),
        ]
    );
}

#[test]
fn a_listed_version_has_its_mapping_release() {
    assert_eq!(parchment_version("1.16.5"), Some("2022.03.06"));
    assert_eq!(parchment_version("1.20.4"), Some("2024.04.14"));
    assert_eq!(parchment_version("1.21"), Some("2024.07.28"));
}

#[test]
fn an_unlisted_version_has_no_mapping_release() {
    assert_eq!(parchment_version("1.20.5"), None);
    assert_eq!(parchment_version(""), None);
    assert_eq!(parchment_version("2022.03.06"), None);
}

#[test]
fn each_version_is_served_by_the_latest_listed_version_so_far() {
    let mut ids = vec!["1.15", "1.16.4"];
    for id in TABLE_IDS {
        ids.push(id);
        if id == "1.20.4" {
            ids.push("1.20.5");
        }
    }
    ids.push("1.21.1");
    let index = index_parchment_mc_versions(&versions(&ids)).unwrap();
    assert_eq!(index.len(), ids.len());
    assert_eq!(index[0], None);
    assert_eq!(index[1], None);
    assert_eq!(index[2], Some("1.16.5"));
    assert_eq!(index[3], Some("1.17.1"));
    let place = ids.iter().position(|id| *id == "1.20.5").unwrap();
    assert_eq!(index[place - 1], Some("1.20.4"));
    assert_eq!(index[place], Some("1.20.4"));
    assert_eq!(index[place + 1], Some("1.20.6"));
    assert_eq!(index[ids.len() - 2], Some("1.21"));
    assert_eq!(index[ids.len() - 1], Some("1.21"));
}

#[test]
fn a_listed_version_that_is_never_met_is_reported() {
    assert_eq!(index_parchment_mc_versions(&versions(&[])), Err("1.16.5"));
    assert_eq!(index_parchment_mc_versions(&versions(&["1.15", "1.16.5", "1.17"])), Err("1.17.1"));
    let all_but_last: Vec<&str> = TABLE_IDS[..11].to_vec();
    assert_eq!(index_parchment_mc_versions(&versions(&all_but_last)), Err("1.21"));
}

#[test]
fn listed_versions_out_of_order_are_not_met() {
    let mut ids: Vec<&str> = TABLE_IDS.to_vec();
    ids.swap(0, 1);
    assert_eq!(index_parchment_mc_versions(&versions(&ids)), Err("1.17.1"));
}

#[test]
fn exactly_the_table_is_indexed_by_itself() {
    let index = index_parchment_mc_versions(&versions(&TABLE_IDS)).unwrap();
    let expected: Vec<Option<&str>> = TABLE_IDS.iter().map(|id| Some(*id)).collect();
    assert_eq!(index, expected);
}
