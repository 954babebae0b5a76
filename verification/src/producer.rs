//! The producer's boundary: what is asked of the external build for a
//! version, and where its outputs are found.

use vstd::prelude::*;
use vstd::string::StringExecFns;
use vstd::string::StrSliceExecFns;
use crate::artifact::DecompileArtifact;
use crate::error::MojError;
use crate::parchment::{parchment_version, spec_parchment_version};
use crate::tree::SourcePath;
use crate::version::Version;

verus! {

/// `relative` below the directory `root`, as text: the two joined by one
/// slash, which is left out where `root` is empty or already ends in one.
pub open spec fn join_text(root: Seq<char>, relative: Seq<char>) -> Seq<char> {
    if root.len() == 0 {
        relative
    } else if root.last() == '/' {
        root + relative
    } else {
        root.push('/') + relative
    }
}

/// The path of `relative` below the directory `root`.
pub fn join_paths(root: &str, relative: &str) -> (joined: String)
    ensures
        joined@ == join_text(root@, relative@),
{
    let length = root.unicode_len();
    let mut joined = String::from_str(root);
    if length > 0 && root.get_char(length - 1) != '/' {
        proof {
            reveal_strlit("/");
        }
        joined.append("/");
    }
    joined.append(relative);
    joined
}

impl DecompileArtifact {
    /// Where the producer leaves the kind's output, relative to its work
    /// area, as a character sequence.
    pub open spec fn spec_output(self) -> Seq<char> {
        match self {
            DecompileArtifact::DecompiledClasses => "decompiledSources"@,
            DecompileArtifact::LibrariesTxt => "build/libraries.txt"@,
        }
    }

    /// The build task that generates the kind, as a character sequence.
    pub open spec fn spec_task(self) -> Seq<char> {
        match self {
            DecompileArtifact::DecompiledClasses => "unpackSourcesIntoKnownDir"@,
            DecompileArtifact::LibrariesTxt => "exportLibraries"@,
        }
    }

    /// Where the producer leaves the kind's output, relative to its work
    /// area.
    pub fn output(&self) -> (location: &'static str)
        ensures
            location@ == self.spec_output(),
    {
        match self {
            DecompileArtifact::DecompiledClasses => "decompiledSources",
            DecompileArtifact::LibrariesTxt => "build/libraries.txt",
        }
    }

    /// The build task that generates the kind.
    pub fn task(&self) -> (task: &'static str)
        ensures
            task@ == self.spec_task(),
    {
        match self {
            DecompileArtifact::DecompiledClasses => "unpackSourcesIntoKnownDir",
            DecompileArtifact::LibrariesTxt => "exportLibraries",
        }
    }
}

/// The outputs of one invocation of the producer: for each kind that was
/// asked for, where its output is.
#[derive(Debug)]
pub struct DecompileResult {
    artifacts: Vec<(DecompileArtifact, String)>,
}

/// The kinds of `pairs`, in the same order.
pub open spec fn kinds_of(pairs: Seq<(DecompileArtifact, String)>) -> Seq<DecompileArtifact> {
    Seq::new(pairs.len(), |i: int| pairs[i].0)
}

impl DecompileResult {
    /// The outputs: each a kind and the place of its output.
    pub closed spec fn pairs(&self) -> Seq<(DecompileArtifact, String)> {
        self.artifacts@
    }

    /// No kind has two outputs.
    pub open spec fn wf(&self) -> bool {
        kinds_of(self.pairs()).no_duplicates()
    }

    /// The place of the output of `artifact`, if the result holds one.
    pub open spec fn location(&self, artifact: DecompileArtifact) -> Option<Seq<char>> {
        if exists|i: int| 0 <= i < self.pairs().len() && (#[trigger] self.pairs()[i]).0 == artifact {
            let i = choose|i: int| 0 <= i < self.pairs().len() && (#[trigger] self.pairs()[i]).0 == artifact;
            Some(self.pairs()[i].1@)
        } else {
            None
        }
    }

    /// The outputs: each a kind and the place of its output, in the order
    /// in which the kinds were first asked for.
    pub fn artifacts(&self) -> (artifacts: &Vec<(DecompileArtifact, String)>)
        ensures
            artifacts@ == self.pairs(),
    {
        &self.artifacts
    }

    /// The outputs that the producer leaves below `work_dir` when asked for
    /// `requested_artifacts`: one for each kind asked for, however often it
    /// was asked for, at the kind's place in the work area.
    pub fn locate(work_dir: &str, requested_artifacts: &[DecompileArtifact]) -> (result: DecompileResult)
        ensures
            result.wf(),
            forall|artifact: DecompileArtifact|
                result.location(artifact) == (if requested_artifacts@.contains(artifact) {
                    Some(join_text(work_dir@, artifact.spec_output()))
                } else {
                    None
                }),
            forall|i: int|
                0 <= i < result.pairs().len() ==> requested_artifacts@.contains(
                    (#[trigger] result.pairs()[i]).0,
                ),
    {
        let mut artifacts: Vec<(DecompileArtifact, String)> = Vec::new();
        let mut i: usize = 0;
        while i < requested_artifacts.len()
            invariant
                i <= requested_artifacts.len(),
                kinds_of(artifacts@).no_duplicates(),
                forall|k: int|
                    0 <= k < artifacts@.len() ==> {
                        &&& requested_artifacts@.subrange(0, i as int).contains((#[trigger] artifacts@[k]).0)
                        &&& artifacts@[k].1@ == join_text(work_dir@, artifacts@[k].0.spec_output())
                    },
                forall|j: int|
                    0 <= j < i ==> kinds_of(artifacts@).contains(#[trigger] requested_artifacts@[j]),
            decreases requested_artifacts.len() - i,
        {
            let artifact = requested_artifacts[i];
            let ghost before = artifacts@;
            let mut present = false;
            let mut k: usize = 0;
            while k < artifacts.len()
                invariant
                    k <= artifacts.len(),
                    present == exists|m: int| 0 <= m < k && (#[trigger] artifacts@[m]).0 == artifact,
                decreases artifacts.len() - k,
            {
                if artifacts[k].0 == artifact {
                    present = true;
                }
                k += 1;
            }
            if !present {
                artifacts.push((artifact, join_paths(work_dir, artifact.output())));
                proof {
                    assert forall|a: int, b: int|
                        0 <= a < b < artifacts@.len() implies kinds_of(artifacts@)[a] != kinds_of(
                        artifacts@,
                    )[b] by {
                        if b < before.len() {
                            assert(kinds_of(before)[a] != kinds_of(before)[b]);
                        }
                    }
                    assert(kinds_of(artifacts@)[before.len() as int] == artifact);
                }
            } else {
                proof {
                    let m = choose|m: int| 0 <= m < artifacts@.len() && (#[trigger] artifacts@[m]).0 == artifact;
                    assert(kinds_of(artifacts@)[m] == artifact);
                }
            }
            proof {
                let next = requested_artifacts@.subrange(0, i + 1);
                assert(next[i as int] == artifact);
                assert forall|k: int| 0 <= k < artifacts@.len() implies next.contains(
                    (#[trigger] artifacts@[k]).0,
                ) by {
                    if k < before.len() {
                        let at = choose|at: int|
                            0 <= at < i && requested_artifacts@.subrange(0, i as int)[at] == before[k].0;
                        assert(next[at] == before[k].0);
                    }
                }
                assert forall|j: int| 0 <= j < i + 1 implies kinds_of(artifacts@).contains(
                    #[trigger] requested_artifacts@[j],
                ) by {
                    if j < i {
                        let at = choose|at: int|
                            0 <= at < before.len() && kinds_of(before)[at] == requested_artifacts@[j];
                        assert(kinds_of(artifacts@)[at] == requested_artifacts@[j]);
                    }
                }
            }
            i += 1;
        }
        let result = DecompileResult { artifacts };
        proof {
            assert(requested_artifacts@.subrange(0, i as int) =~= requested_artifacts@);
            assert forall|artifact: DecompileArtifact|
                result.location(artifact) == (if requested_artifacts@.contains(artifact) {
                    Some(join_text(work_dir@, artifact.spec_output()))
                } else {
                    None
                }) by {
                if requested_artifacts@.contains(artifact) {
                    let j = choose|j: int|
                        0 <= j < requested_artifacts@.len() && requested_artifacts@[j] == artifact;
                    let at = choose|at: int|
                        0 <= at < result.pairs().len() && kinds_of(result.pairs())[at] == artifact;
                    assert(result.pairs()[at].0 == artifact);
                }
            }
        }
        result
    }
}

/// The sources of a version's new tree: each output of the producer, to be
/// put at the repository path of its kind.
pub fn source_paths(result: &DecompileResult) -> (sources: Vec<SourcePath>)
    ensures
        sources@.len() == result.pairs().len(),
        forall|i: int|
            0 <= i < sources@.len() ==> {
                &&& (#[trigger] sources@[i]).root@ == result.pairs()[i].1@
                &&& sources@[i].repo_root@ == result.pairs()[i].0.spec_path()
            },
{
    let artifacts = result.artifacts();
    let mut sources: Vec<SourcePath> = Vec::new();
    let mut i: usize = 0;
    while i < artifacts.len()
        invariant
            i <= artifacts.len(),
            artifacts@ == result.pairs(),
            sources@.len() == i,
            forall|k: int|
                0 <= k < i ==> {
                    &&& (#[trigger] sources@[k]).root@ == result.pairs()[k].1@
                    &&& sources@[k].repo_root@ == result.pairs()[k].0.spec_path()
                },
        decreases artifacts.len() - i,
    {
        sources.push(
            SourcePath {
                root: artifacts[i].1.clone(),
                repo_root: artifacts[i].0.path_in_repository().to_owned(),
            },
        );
        i += 1;
    }
    sources
}

/// The arguments of the build for the kinds in `requested_artifacts`: the
/// fixed options, then the task of each kind in the order asked for.
pub open spec fn spec_gradle_arguments(requested_artifacts: Seq<DecompileArtifact>) -> Seq<Seq<char>> {
    seq!["--stacktrace"@, "--parallel"@, "--configuration-cache"@] + Seq::new(
        requested_artifacts.len(),
        |i: int| requested_artifacts[i].spec_task(),
    )
}

/// The texts of `arguments` as character sequences.
pub open spec fn argument_views(arguments: Seq<&'static str>) -> Seq<Seq<char>> {
    Seq::new(arguments.len(), |i: int| arguments[i]@)
}

/// The arguments of the build for the kinds in `requested_artifacts`.
pub fn gradle_arguments(requested_artifacts: &[DecompileArtifact]) -> (arguments: Vec<&'static str>)
    ensures
        argument_views(arguments@) == spec_gradle_arguments(requested_artifacts@),
{
    let mut arguments: Vec<&'static str> = Vec::new();
    arguments.push("--stacktrace");
    arguments.push("--parallel");
    arguments.push("--configuration-cache");
    let mut i: usize = 0;
    while i < requested_artifacts.len()
        invariant
            i <= requested_artifacts.len(),
            arguments@.len() == 3 + i,
            arguments@[0]@ == "--stacktrace"@,
            arguments@[1]@ == "--parallel"@,
            arguments@[2]@ == "--configuration-cache"@,
            forall|k: int| 0 <= k < i ==> (#[trigger] arguments@[3 + k])@ == requested_artifacts@[k].spec_task(),
        decreases requested_artifacts.len() - i,
    {
        arguments.push(requested_artifacts[i].task());
        i += 1;
    }
    proof {
        let fixed = seq!["--stacktrace"@, "--parallel"@, "--configuration-cache"@];
        let tasks = Seq::new(
            requested_artifacts@.len(),
            |i: int| requested_artifacts@[i].spec_task(),
        );
        let expected = spec_gradle_arguments(requested_artifacts@);
        assert(expected == fixed + tasks);
        assert forall|k: int| 0 <= k < expected.len() implies argument_views(arguments@)[k]
            == expected[k] by {
            if k >= 3 {
                assert(expected[k] == tasks[k - 3]);
                assert(arguments@[3 + (k - 3)]@ == requested_artifacts@[k - 3].spec_task());
            } else {
                assert(expected[k] == fixed[k]);
            }
        }
        assert(argument_views(arguments@) =~= expected);
    }
    arguments
}

/// The properties that the build reads: the version to build, the version
/// whose mappings serve it, and the release of those mappings. The last
/// two are empty where no mappings serve the version.
pub open spec fn spec_gradle_properties(
    version_id: Seq<char>,
    parchment_mc_version: Seq<char>,
    parchment_release: Seq<char>,
) -> Seq<char> {
    "\n            minecraft_version="@ + version_id + "\n            parchment_mc_version="@
        + parchment_mc_version + "\n            parchment_version="@ + parchment_release
        + "\n            "@
}

/// Writes the properties that the build reads for the version
/// `version_id`, served by the mappings of `parchment_mc_version` if any.
/// There are none where `parchment_mc_version` is given and the table of
/// mapping releases does not list it.
pub fn gradle_properties(version_id: &str, parchment_mc_version: Option<&str>) -> (properties: Option<
    String,
>)
    ensures
        match parchment_mc_version {
            None => properties matches Some(text) && text@ == spec_gradle_properties(
                version_id@,
                Seq::empty(),
                Seq::empty(),
            ),
            Some(served_by) => match spec_parchment_version(served_by@) {
                Some(release) => properties matches Some(text) && text@ == spec_gradle_properties(
                    version_id@,
                    served_by@,
                    release,
                ),
                None => properties is None,
            },
        },
{
    let (served_by, release) = match parchment_mc_version {
        None => {
            proof {
                reveal_strlit("");
            }
            ("", "")
        },
        Some(served_by) => match parchment_version(served_by) {
            Some(release) => (served_by, release),
            None => {
                return None;
            },
        },
    };
    let mut text = String::from_str("\n            minecraft_version=");
    text.append(version_id);
    text.append("\n            parchment_mc_version=");
    text.append(served_by);
    text.append("\n            parchment_version=");
    text.append(release);
    text.append("\n            ");
    Some(text)
}

/// Checks what unpacking the build tool's distribution left in its
/// directory, where the tool itself is not yet in place: there must be
/// exactly one entry, and it must be a directory. `entry_is_directory`
/// tells of each entry whether it is one.
pub fn check_unpacked(entry_is_directory: &[bool]) -> (checked: Result<(), MojError>)
    ensures
        checked == (if entry_is_directory@.len() == 1 && entry_is_directory@[0] {
            Ok::<(), MojError>(())
        } else {
            Err::<(), MojError>(MojError::Decompilation)
        }),
{
    if entry_is_directory.len() == 1 && entry_is_directory[0] {
        Ok(())
    } else {
        Err(MojError::Decompilation)
    }
}

/// The producer's work area, relative to the directory of the run.
pub const WORK_DIR: &'static str = "./decompilationWorkArea/";

/// What to ask of the producer for one version, and where to find what it
/// made.
#[derive(Debug)]
pub struct DecompileRequest {
    /// The directory that the build runs in.
    pub work_dir: &'static str,
    /// The content of the properties file that the build reads.
    pub properties: String,
    /// The arguments that the build is started with.
    pub arguments: Vec<&'static str>,
    /// The outputs that the build leaves when it succeeds.
    pub result: DecompileResult,
}

/// Lays out the invocation of the producer that generates
/// `requested_artifacts` for `version`, with the mappings of
/// `parchment_mc_version` if any: the properties and arguments of the
/// build, and for each kind asked for the place in the work area where its
/// output will be. There is no such invocation where
/// `parchment_mc_version` is given and the table of mapping releases does
/// not list it.
pub fn decompile_version(
    version: &Version,
    parchment_mc_version: Option<&str>,
    requested_artifacts: &[DecompileArtifact],
) -> (request: Option<DecompileRequest>)
    ensures
        request is None <==> (parchment_mc_version matches Some(served_by) && spec_parchment_version(
            served_by@,
        ) is None),
        request matches Some(asked) ==> {
            &&& asked.work_dir@ == WORK_DIR@
            &&& asked.properties@ == spec_gradle_properties(
                version.id@,
                match parchment_mc_version {
                    Some(served_by) => served_by@,
                    None => Seq::empty(),
                },
                match parchment_mc_version {
                    Some(served_by) => spec_parchment_version(served_by@)->0,
                    None => Seq::empty(),
                },
            )
            &&& argument_views(asked.arguments@) == spec_gradle_arguments(requested_artifacts@)
            &&& asked.result.wf()
            &&& forall|artifact: DecompileArtifact|
                asked.result.location(artifact) == (if requested_artifacts@.contains(artifact) {
                    Some(join_text(WORK_DIR@, artifact.spec_output()))
                } else {
                    None
                })
        },
{
    let properties = match gradle_properties(version.id.as_str(), parchment_mc_version) {
        Some(properties) => properties,
        None => {
            return None;
        },
    };
    Some(
        DecompileRequest {
            work_dir: WORK_DIR,
            properties,
            arguments: gradle_arguments(requested_artifacts),
            result: DecompileResult::locate(WORK_DIR, requested_artifacts),
        },
    )
}

/// The release of the build tool that the producer runs.
pub const GRADLE_VERSION: &'static str = "8.12";

/// Where the distribution of the build tool is downloaded from.
pub fn gradle_distribution_url() -> (url: String)
    ensures
        url@ == "https://services.gradle.org/distributions/gradle-"@ + GRADLE_VERSION@ + "-bin.zip"@,
{
    String::from_str("https://services.gradle.org/distributions/gradle-").concat(GRADLE_VERSION).concat(
        "-bin.zip",
    )
}

/// The directory below the work area `work_dir` that the build tool is
/// installed in: one directory per release.
pub fn gradle_directory(work_dir: &str) -> (directory: String)
    ensures
        directory@ == join_text(join_text(work_dir@, "gradle-install"@), GRADLE_VERSION@),
{
    let installs = join_paths(work_dir, "gradle-install");
    join_paths(installs.as_str(), GRADLE_VERSION)
}

/// The build tool's executable in its directory `gradle_dir`.
pub fn gradle_executable(gradle_dir: &str) -> (executable: String)
    ensures
        executable@ == join_text(gradle_dir@, "bin/gradle"@),
{
    join_paths(gradle_dir, "bin/gradle")
}

} // verus!
