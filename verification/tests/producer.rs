use moj_archive::artifact::DecompileArtifact;
use moj_archive::error::MojError;
use moj_archive::producer::{
    check_unpacked, decompile_version, gradle_arguments, gradle_directory, gradle_distribution_url,
    gradle_executable, gradle_properties, join_paths, source_paths, DecompileResult, GRADLE_VERSION,
    WORK_DIR,
};
use moj_archive::tree::SourcePath;
use moj_archive::version::Version;

const CLASSES: DecompileArtifact = DecompileArtifact::DecompiledClasses;
const LIBRARIES: DecompileArtifact = DecompileArtifact::LibrariesTxt;

#[test]
fn paths_are_joined_with_one_slash() {
    assert_eq!(join_paths("./decompilationWorkArea/", "decompiledSources"), "./decompilationWorkArea/decompiledSources");
    assert_eq!(join_paths("work", "build/libraries.txt"), "work/build/libraries.txt");
    assert_eq!(join_paths("", "build"), "build");
    assert_eq!(join_paths("w\u{e9}", "x"), "w\u{e9}/x");
    assert_eq!(join_paths("work", ""), "work/");
}

#[test]
fn outputs_and_tasks_of_the_kinds() {
    assert_eq!(CLASSES.output(), "decompiledSources");
    assert_eq!(LIBRARIES.output(), "build/libraries.txt");
    assert_eq!(CLASSES.task(), "unpackSourcesIntoKnownDir");
    assert_eq!(LIBRARIES.task(), "exportLibraries");
}

#[test]
fn the_result_locates_each_requested_kind_once() {
    let result = DecompileResult::locate("work", &[LIBRARIES, CLASSES, LIBRARIES]);
    assert_eq!(
        result.artifacts(),
        &vec![
            (LIBRARIES, "work/build/libraries.txt".to_string()),
            (CLASSES, "work/decompiledSources".to_string()),
        ]
    );
    assert!(DecompileResult::locate("work", &[]).artifacts().is_empty());
}

#[test]
fn sources_go_to_the_repository_paths_of_their_kinds() {
    let result = DecompileResult::locate(WORK_DIR, &[CLASSES, LIBRARIES]);
    assert_eq!(
        source_paths(&result),
        vec![
            SourcePath { root: "./decompilationWorkArea/decompiledSources".to_string(), repo_root: "src".to_string() },
            SourcePath {
                root: "./decompilationWorkArea/build/libraries.txt".to_string(),
                repo_root: "libraries.txt".to_string(),
            },
        ]
    );
}

#[test]
fn the_build_gets_fixed_options_and_one_task_per_kind() {
    assert_eq!(gradle_arguments(&[]), vec!["--stacktrace", "--parallel", "--configuration-cache"]);
    assert_eq!(
        gradle_arguments(&[CLASSES, LIBRARIES]),
        vec!["--stacktrace", "--parallel", "--configuration-cache", "unpackSourcesIntoKnownDir", "exportLibraries"]
    );
    assert_eq!(
        gradle_arguments(&[LIBRARIES]),
        vec!["--stacktrace", "--parallel", "--configuration-cache", "exportLibraries"]
    );
}

#[test]
fn properties_name_version_and_mappings() {
    assert_eq!(
        gradle_properties("1.20.5", Some("1.20.4")).unwrap(),
        "\n            minecraft_version=1.20.5\n            parchment_mc_version=1.20.4\n            parchment_version=2024.04.14\n            "
    );
    assert_eq!(
        gradle_properties("1.14", None).unwrap(),
        "\n            minecraft_version=1.14\n            parchment_mc_version=\n            parchment_version=\n            "
    );
}

#[test]
fn properties_need_listed_mappings() {
    assert_eq!(gradle_properties("1.20.5", Some("1.20.5")), None);
}

#[test]
fn unpacking_must_leave_one_directory() {
    assert_eq!(check_unpacked(&[true]), Ok(()));
    assert_eq!(check_unpacked(&[false]), Err(MojError::Decompilation));
    assert_eq!(check_unpacked(&[]), Err(MojError::Decompilation));
    assert_eq!(check_unpacked(&[true, true]), Err(MojError::Decompilation));
    assert_eq!(check_unpacked(&[true, false]), Err(MojError::Decompilation));
}

#[test]
fn a_request_lays_out_the_whole_invocation() {
    let version = Version { id: "1.19.3".to_string(), release_time: 0, type_: "release".to_string() };
    let request = decompile_version(&version, Some("1.19.3"), &[CLASSES]).unwrap();
    assert_eq!(request.work_dir, "./decompilationWorkArea/");
    assert_eq!(
        request.properties,
        "\n            minecraft_version=1.19.3\n            parchment_mc_version=1.19.3\n            parchment_version=2023.06.25\n            "
    );
    assert_eq!(
        request.arguments,
        vec!["--stacktrace", "--parallel", "--configuration-cache", "unpackSourcesIntoKnownDir"]
    );
    assert_eq!(
        request.result.artifacts(),
        &vec![(CLASSES, "./decompilationWorkArea/decompiledSources".to_string())]
    );
}

#[test]
fn a_request_needs_listed_mappings() {
    let version = Version { id: "1.19.3".to_string(), release_time: 0, type_: "release".to_string() };
    assert!(decompile_version(&version, Some("1.19"), &[CLASSES]).is_none());
    assert!(decompile_version(&version, None, &[CLASSES]).is_some());
}

#[test]
fn the_build_tool_has_its_place_and_its_source() {
    assert_eq!(GRADLE_VERSION, "8.12");
    assert_eq!(gradle_distribution_url(), "https://services.gradle.org/distributions/gradle-8.12-bin.zip");
    assert_eq!(gradle_directory(WORK_DIR), "./decompilationWorkArea/gradle-install/8.12");
    assert_eq!(gradle_directory("work"), "work/gradle-install/8.12");
    assert_eq!(gradle_executable("/abs/gradle-install/8.12"), "/abs/gradle-install/8.12/bin/gradle");
}
