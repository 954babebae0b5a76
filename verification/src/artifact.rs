//! The kinds of artifact that the producer can generate for a version, and
//! the schema version that each kind currently has.

use vstd::prelude::*;
use vstd::utf8::*;
use crate::path::{is_under, SEPARATOR};

verus! {

/// One kind of output that the producer can generate for a version.
#[derive(Debug, Clone, Copy, PartialEq, Eq, Hash, Structural)]
pub enum DecompileArtifact {
    DecompiledClasses,
    LibrariesTxt,
}

/// The current schema version of every kind. A kind's schema version is
/// bumped whenever the producer's output for that kind changes in any way.
#[derive(Debug, Clone, Copy, PartialEq, Eq, Hash, Structural)]
pub struct SchemaTable {
    pub decompiled_classes: u32,
    pub libraries_txt: u32,
}

impl SchemaTable {
    /// The schema version that the table gives for `artifact`.
    pub open spec fn spec_version_of(self, artifact: DecompileArtifact) -> u32 {
        match artifact {
            DecompileArtifact::DecompiledClasses => self.decompiled_classes,
            DecompileArtifact::LibrariesTxt => self.libraries_txt,
        }
    }

    /// The table that this build of the archiver works with.
    pub open spec fn spec_current() -> SchemaTable {
        SchemaTable { decompiled_classes: 3, libraries_txt: 1 }
    }

    /// The table that this build of the archiver works with.
    pub fn current() -> (table: SchemaTable)
        ensures
            table == Self::spec_current(),
    {
        SchemaTable { decompiled_classes: 3, libraries_txt: 1 }
    }

    /// The schema version that the table gives for `artifact`.
    pub fn version_of(&self, artifact: DecompileArtifact) -> (version: u32)
        ensures
            version == self.spec_version_of(artifact),
    {
        match artifact {
            DecompileArtifact::DecompiledClasses => self.decompiled_classes,
            DecompileArtifact::LibrariesTxt => self.libraries_txt,
        }
    }
}

impl DecompileArtifact {
    /// Every kind, in the order in which kinds are always walked.
    pub open spec fn kinds() -> Seq<DecompileArtifact> {
        seq![DecompileArtifact::DecompiledClasses, DecompileArtifact::LibrariesTxt]
    }

    /// Human-readable name of the kind, as a character sequence.
    pub open spec fn spec_description(self) -> Seq<char> {
        match self {
            DecompileArtifact::DecompiledClasses => "decompiled classes"@,
            DecompileArtifact::LibrariesTxt => "libraries.txt"@,
        }
    }

    /// The current schema version of the kind.
    pub open spec fn spec_version(self) -> u32 {
        SchemaTable::spec_current().spec_version_of(self)
    }

    /// Where the kind's output lives inside an archived tree, as text.
    pub open spec fn spec_path(self) -> Seq<char> {
        match self {
            DecompileArtifact::DecompiledClasses => "src"@,
            DecompileArtifact::LibrariesTxt => "libraries.txt"@,
        }
    }

    /// Where the kind's output lives inside an archived tree, as bytes.
    pub open spec fn path_bytes(self) -> Seq<u8> {
        encode_utf8(self.spec_path())
    }

    /// Every kind, in the order in which kinds are always walked.
    pub fn all() -> (kinds: &'static [DecompileArtifact])
        ensures
            kinds@ == Self::kinds(),
    {
        &[DecompileArtifact::DecompiledClasses, DecompileArtifact::LibrariesTxt]
    }

    /// Human-readable name of the kind.
    pub fn description(&self) -> (text: &'static str)
        ensures
            text@ == self.spec_description(),
    {
        match self {
            DecompileArtifact::DecompiledClasses => "decompiled classes",
            DecompileArtifact::LibrariesTxt => "libraries.txt",
        }
    }

    /// The current schema version of the kind.
    pub fn version(&self) -> (version: u32)
        ensures
            version == self.spec_version(),
    {
        SchemaTable::current().version_of(*self)
    }

    /// Where the kind's output lives inside an archived tree: a single file
    /// or the root of a directory subtree.
    pub fn path_in_repository(&self) -> (path: &str)
        ensures
            path@ == self.spec_path(),
    {
        match self {
            DecompileArtifact::DecompiledClasses => "src",
            DecompileArtifact::LibrariesTxt => "libraries.txt",
        }
    }
}

/// Every kind occurs in `kinds()`, and occurs there once.
pub proof fn lemma_kinds_complete(artifact: DecompileArtifact)
    ensures
        DecompileArtifact::kinds().contains(artifact),
        DecompileArtifact::kinds().no_duplicates(),
{
}

/// The byte form of each kind's repository path.
pub proof fn lemma_path_bytes()
    ensures
        DecompileArtifact::DecompiledClasses.path_bytes() == seq![0x73u8, 0x72u8, 0x63u8],
        DecompileArtifact::LibrariesTxt.path_bytes() == seq![
            0x6cu8, 0x69u8, 0x62u8, 0x72u8, 0x61u8, 0x72u8, 0x69u8, 0x65u8, 0x73u8,
            0x2eu8, 0x74u8, 0x78u8, 0x74u8,
        ],
{
    reveal_strlit("src");
    reveal_strlit("libraries.txt");
    is_ascii_chars_encode_utf8("src"@);
    is_ascii_chars_encode_utf8("libraries.txt"@);
    assert(DecompileArtifact::LibrariesTxt.path_bytes() =~= seq![
        0x6cu8, 0x69u8, 0x62u8, 0x72u8, 0x61u8, 0x72u8, 0x69u8, 0x65u8, 0x73u8,
        0x2eu8, 0x74u8, 0x78u8, 0x74u8,
    ]);
}

/// The subtrees of two different kinds share no path: what falls under the
/// repository path of one kind does not fall under that of another.
pub proof fn lemma_kind_paths_disjoint(
    path: Seq<u8>,
    first: DecompileArtifact,
    second: DecompileArtifact,
)
    requires
        first != second,
        is_under(path, first.path_bytes()),
    ensures
        !is_under(path, second.path_bytes()),
{
    lemma_path_bytes();
}

/// No kind's repository path ends in a separator or is empty.
pub proof fn lemma_kind_path_shape(artifact: DecompileArtifact)
    ensures
        artifact.path_bytes().len() > 0,
        artifact.path_bytes().last() != SEPARATOR,
{
    lemma_path_bytes();
}

} // verus!
