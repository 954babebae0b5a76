use moj_archive::artifact::{DecompileArtifact, SchemaTable};
use moj_archive::index::ObjectId;
use moj_archive::ledger::SavedInfo;
use moj_archive::plan::{plan_version, ArchiveEntry, VersionPlan};
use moj_archive::tree::TreeBase;

const CLASSES: DecompileArtifact = DecompileArtifact::DecompiledClasses;
const LIBRARIES: DecompileArtifact = DecompileArtifact::LibrariesTxt;

fn tree(seed: u8) -> ObjectId {
    ObjectId { bytes: [seed; 20] }
}

#[test]
fn a_current_version_is_retagged() {
    let table = SchemaTable::current();
    let archived = ArchiveEntry { tree: tree(1), ledger: SavedInfo::new(3, 1) };
    assert_eq!(
        plan_version(Some(archived), &table),
        VersionPlan::Retag { tree: tree(1), ledger: SavedInfo::new(3, 1) }
    );
}

#[test]
fn a_ledger_ahead_of_the_table_is_retagged_as_it_is() {
    let table = SchemaTable::current();
    let archived = ArchiveEntry { tree: tree(1), ledger: SavedInfo::new(8, 2) };
    assert_eq!(
        plan_version(Some(archived), &table),
        VersionPlan::Retag { tree: tree(1), ledger: SavedInfo::new(8, 2) }
    );
}

#[test]
fn an_unseen_version_is_built_from_scratch() {
    let table = SchemaTable::current();
    assert_eq!(
        plan_version(None, &table),
        VersionPlan::Rebuild { base: None, stale: vec![CLASSES, LIBRARIES], ledger: SavedInfo::new(3, 1) }
    );
}

#[test]
fn only_the_stale_kind_is_rebuilt() {
    let table = SchemaTable::current();
    let archived = ArchiveEntry { tree: tree(4), ledger: SavedInfo::new(2, 1) };
    assert_eq!(
        plan_version(Some(archived), &table),
        VersionPlan::Rebuild {
            base: Some(TreeBase { tree: tree(4), excluded_paths: vec!["src".to_string()] }),
            stale: vec![CLASSES],
            ledger: SavedInfo::new(3, 1),
        }
    );
    let archived = ArchiveEntry { tree: tree(4), ledger: SavedInfo::new(3, 0) };
    assert_eq!(
        plan_version(Some(archived), &table),
        VersionPlan::Rebuild {
            base: Some(TreeBase { tree: tree(4), excluded_paths: vec!["libraries.txt".to_string()] }),
            stale: vec![LIBRARIES],
            ledger: SavedInfo::new(3, 1),
        }
    );
}

#[test]
fn a_kind_ahead_of_the_table_keeps_its_record_in_a_rebuild() {
    let table = SchemaTable::current();
    let archived = ArchiveEntry { tree: tree(4), ledger: SavedInfo::new(1, 6) };
    assert_eq!(
        plan_version(Some(archived), &table),
        VersionPlan::Rebuild {
            base: Some(TreeBase { tree: tree(4), excluded_paths: vec!["src".to_string()] }),
            stale: vec![CLASSES],
            ledger: SavedInfo::new(3, 6),
        }
    );
}

#[test]
fn an_all_zero_archive_is_rebuilt_on_its_tree() {
    let table = SchemaTable::current();
    let archived = ArchiveEntry { tree: tree(4), ledger: SavedInfo::default() };
    assert_eq!(
        plan_version(Some(archived), &table),
        VersionPlan::Rebuild {
            base: Some(TreeBase {
                tree: tree(4),
                excluded_paths: vec!["src".to_string(), "libraries.txt".to_string()],
            }),
            stale: vec![CLASSES, LIBRARIES],
            ledger: SavedInfo::new(3, 1),
        }
    );
}

#[test]
fn an_unseen_version_with_nothing_to_produce_is_still_built() {
    let table = SchemaTable { decompiled_classes: 0, libraries_txt: 0 };
    assert_eq!(
        plan_version(None, &table),
        VersionPlan::Rebuild { base: None, stale: Vec::new(), ledger: SavedInfo::new(0, 0) }
    );
}

#[test]
fn the_plan_after_a_plan_is_a_retag() {
    let table = SchemaTable { decompiled_classes: 4, libraries_txt: 2 };
    for classes in 0..6u32 {
        for libraries in 0..4u32 {
            for archived in [None, Some(ArchiveEntry { tree: tree(1), ledger: SavedInfo::new(classes, libraries) })] {
                let (committed_tree, ledger) = match plan_version(archived, &table) {
                    VersionPlan::Retag { tree, ledger } => (tree, ledger),
                    VersionPlan::Rebuild { ledger, .. } => (tree(2), ledger),
                };
                let next = ArchiveEntry { tree: committed_tree, ledger };
                assert_eq!(
                    plan_version(Some(next), &table),
                    VersionPlan::Retag { tree: committed_tree, ledger }
                );
            }
        }
    }
}
