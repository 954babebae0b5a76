use moj_archive::artifact::{DecompileArtifact, SchemaTable};
use moj_archive::error::MojError;

#[test]
fn all_lists_both_kinds_in_order() {
    assert_eq!(
        DecompileArtifact::all(),
        &[DecompileArtifact::DecompiledClasses, DecompileArtifact::LibrariesTxt]
    );
}

#[test]
fn descriptions_are_human_readable() {
    assert_eq!(DecompileArtifact::DecompiledClasses.description(), "decompiled classes");
    assert_eq!(DecompileArtifact::LibrariesTxt.description(), "libraries.txt");
}

#[test]
fn current_schema_versions() {
    assert_eq!(DecompileArtifact::DecompiledClasses.version(), 3);
    assert_eq!(DecompileArtifact::LibrariesTxt.version(), 1);
    let table = SchemaTable::current();
    assert_eq!(table.version_of(DecompileArtifact::DecompiledClasses), 3);
    assert_eq!(table.version_of(DecompileArtifact::LibrariesTxt), 1);
}

#[test]
fn version_agrees_with_current_table() {
    let table = SchemaTable::current();
    for artifact in DecompileArtifact::all() {
        assert_eq!(artifact.version(), table.version_of(*artifact));
    }
}

#[test]
fn table_gives_each_kind_its_own_version() {
    let table = SchemaTable { decompiled_classes: 7, libraries_txt: 9 };
    assert_eq!(table.version_of(DecompileArtifact::DecompiledClasses), 7);
    assert_eq!(table.version_of(DecompileArtifact::LibrariesTxt), 9);
}

#[test]
fn repository_paths() {
    assert_eq!(DecompileArtifact::DecompiledClasses.path_in_repository(), "src");
    assert_eq!(DecompileArtifact::LibrariesTxt.path_in_repository(), "libraries.txt");
}

#[test]
fn error_messages() {
    assert_eq!(MojError::UserError.message(), "User error");
    assert_eq!(MojError::ReadConfig.message(), "Failed to read config file");
    assert_eq!(MojError::ParseConfig.message(), "Failed to parse config file");
    assert_eq!(MojError::FetchVersionManifest.message(), "Failed to fetch version manifest");
    assert_eq!(MojError::OpenGitRepo.message(), "Failed to open git repository");
    assert_eq!(MojError::Decompilation.message(), "Failed to decompile version");
    assert_eq!(MojError::Commit.message(), "Failed to add files and commit new version");
    assert_eq!(MojError::Tag.message(), "Failed to tag new version");
    assert_eq!(MojError::Reset.message(), "Failed to reset repository");
}
