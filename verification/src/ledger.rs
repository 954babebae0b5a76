//! The artifact version ledger: which schema version of each kind is
//! embedded in an archived version, and which kinds are therefore stale.

use vstd::prelude::*;
use crate::artifact::{DecompileArtifact, SchemaTable};

verus! {

/// The ledger of one archived version: for each kind, the schema version
/// that was embedded when the version was last built. A kind that was never
/// built is recorded as version 0.
#[derive(Debug, Clone, Copy, PartialEq, Eq, Hash, Structural)]
pub struct SavedInfo {
    pub decompiled_classes_version: u32,
    pub libraries_output_version: u32,
}

impl SavedInfo {
    /// The version recorded for `artifact`.
    pub open spec fn recorded(self, artifact: DecompileArtifact) -> u32 {
        match artifact {
            DecompileArtifact::DecompiledClasses => self.decompiled_classes_version,
            DecompileArtifact::LibrariesTxt => self.libraries_output_version,
        }
    }

    /// The ledger that records nothing: version 0 for every kind.
    pub open spec fn zero() -> SavedInfo {
        SavedInfo { decompiled_classes_version: 0, libraries_output_version: 0 }
    }

    /// The ledger that records for every kind the version `table` gives it.
    pub open spec fn spec_current_for(table: SchemaTable) -> SavedInfo {
        SavedInfo {
            decompiled_classes_version: table.decompiled_classes,
            libraries_output_version: table.libraries_txt,
        }
    }

    /// `artifact` is stale: its recorded version is behind its schema
    /// version in `table`.
    pub open spec fn is_stale(self, artifact: DecompileArtifact, table: SchemaTable) -> bool {
        self.recorded(artifact) < table.spec_version_of(artifact)
    }

    /// The set of stale kinds.
    pub open spec fn stale_set(self, table: SchemaTable) -> Set<DecompileArtifact> {
        Set::new(|artifact: DecompileArtifact| self.is_stale(artifact, table))
    }

    /// The stale kinds in the order of [`DecompileArtifact::kinds`].
    pub open spec fn spec_stale_kinds(self, table: SchemaTable) -> Seq<DecompileArtifact> {
        DecompileArtifact::kinds().filter(|artifact: DecompileArtifact| self.is_stale(artifact, table))
    }

    /// The ledger is current: no kind's recorded version is behind its
    /// schema version in `table`.
    pub open spec fn spec_is_current(self, table: SchemaTable) -> bool {
        forall|artifact: DecompileArtifact| !self.is_stale(artifact, table)
    }

    /// The ledger after the kinds in `regenerated` were rebuilt: those kinds
    /// at their schema version in `table`, every other kind as recorded.
    pub open spec fn spec_merge(self, regenerated: Set<DecompileArtifact>, table: SchemaTable) -> SavedInfo {
        SavedInfo {
            decompiled_classes_version: if regenerated.contains(DecompileArtifact::DecompiledClasses) {
                table.decompiled_classes
            } else {
                self.decompiled_classes_version
            },
            libraries_output_version: if regenerated.contains(DecompileArtifact::LibrariesTxt) {
                table.libraries_txt
            } else {
                self.libraries_output_version
            },
        }
    }

    /// A ledger with the given recorded versions.
    pub fn new(decompiled_classes_version: u32, libraries_output_version: u32) -> (info: SavedInfo)
        ensures
            info == (SavedInfo { decompiled_classes_version, libraries_output_version }),
    {
        SavedInfo { decompiled_classes_version, libraries_output_version }
    }

    /// The ledger of a version whose every kind was just built by this build
    /// of the archiver.
    pub fn current() -> (info: SavedInfo)
        ensures
            info == Self::spec_current_for(SchemaTable::spec_current()),
    {
        Self::current_for(&SchemaTable::current())
    }

    /// The ledger of a version whose every kind was just built under `table`.
    pub fn current_for(table: &SchemaTable) -> (info: SavedInfo)
        ensures
            info == Self::spec_current_for(*table),
    {
        SavedInfo {
            decompiled_classes_version: table.version_of(DecompileArtifact::DecompiledClasses),
            libraries_output_version: table.version_of(DecompileArtifact::LibrariesTxt),
        }
    }

    /// The version recorded for `artifact`.
    pub fn get_artifact_version(&self, artifact: DecompileArtifact) -> (version: u32)
        ensures
            version == self.recorded(artifact),
    {
        match artifact {
            DecompileArtifact::DecompiledClasses => self.decompiled_classes_version,
            DecompileArtifact::LibrariesTxt => self.libraries_output_version,
        }
    }

    /// Whether every kind is recorded at, or beyond, its current schema
    /// version.
    pub fn is_current(&self) -> (current: bool)
        ensures
            current == self.spec_is_current(SchemaTable::spec_current()),
    {
        self.is_current_for(&SchemaTable::current())
    }

    /// Whether every kind is recorded at, or beyond, its schema version in
    /// `table`.
    pub fn is_current_for(&self, table: &SchemaTable) -> (current: bool)
        ensures
            current == self.spec_is_current(*table),
    {
        let current = self.decompiled_classes_version >= table.decompiled_classes
            && self.libraries_output_version >= table.libraries_txt;
        proof {
            if !current {
                assert(self.is_stale(DecompileArtifact::DecompiledClasses, *table) || self.is_stale(
                    DecompileArtifact::LibrariesTxt,
                    *table,
                ));
            }
        }
        current
    }

    /// The kinds whose recorded version is behind their current schema
    /// version, in the order of [`DecompileArtifact::all`].
    pub fn stale_kinds(&self) -> (stale: Vec<DecompileArtifact>)
        ensures
            stale@ == self.spec_stale_kinds(SchemaTable::spec_current()),
    {
        self.stale_kinds_for(&SchemaTable::current())
    }

    /// The kinds whose recorded version is behind their schema version in
    /// `table`, in the order of [`DecompileArtifact::all`].
    pub fn stale_kinds_for(&self, table: &SchemaTable) -> (stale: Vec<DecompileArtifact>)
        ensures
            stale@ == self.spec_stale_kinds(*table),
    {
        let kinds = DecompileArtifact::all();
        let ghost stale_now = |artifact: DecompileArtifact| self.is_stale(artifact, *table);
        let mut stale: Vec<DecompileArtifact> = Vec::new();
        let mut i: usize = 0;
        while i < kinds.len()
            invariant
                i <= kinds.len(),
                kinds@ == DecompileArtifact::kinds(),
                stale_now == |artifact: DecompileArtifact| self.is_stale(artifact, *table),
                stale@ == kinds@.subrange(0, i as int).filter(stale_now),
            decreases kinds.len() - i,
        {
            let artifact = kinds[i];
            proof {
                assert(kinds@.subrange(0, i + 1).drop_last() =~= kinds@.subrange(0, i as int));
                reveal(Seq::filter);
            }
            if self.get_artifact_version(artifact) < table.version_of(artifact) {
                stale.push(artifact);
            }
            i += 1;
        }
        assert(kinds@.subrange(0, i as int) =~= kinds@);
        stale
    }

    /// The ledger after the kinds in `regenerated` were rebuilt by this
    /// build of the archiver.
    pub fn merge(&self, regenerated: &[DecompileArtifact]) -> (merged: SavedInfo)
        ensures
            merged == self.spec_merge(regenerated@.to_set(), SchemaTable::spec_current()),
    {
        self.merge_for(regenerated, &SchemaTable::current())
    }

    /// The ledger after the kinds in `regenerated` were rebuilt under
    /// `table`: each of them is recorded at its schema version in `table`,
    /// every other kind keeps the version recorded so far.
    pub fn merge_for(&self, regenerated: &[DecompileArtifact], table: &SchemaTable) -> (merged: SavedInfo)
        ensures
            merged == self.spec_merge(regenerated@.to_set(), *table),
    {
        let mut merged = *self;
        let mut i: usize = 0;
        while i < regenerated.len()
            invariant
                i <= regenerated.len(),
                merged == self.spec_merge(regenerated@.subrange(0, i as int).to_set(), *table),
            decreases regenerated.len() - i,
        {
            let ghost before = regenerated@.subrange(0, i as int);
            let ghost after = regenerated@.subrange(0, i + 1);
            proof {
                assert forall|artifact: DecompileArtifact|
                    after.to_set().contains(artifact) == (before.to_set().contains(artifact)
                        || artifact == regenerated@[i as int]) by {
                    if artifact == regenerated@[i as int] {
                        assert(after[i as int] == artifact);
                    }
                }
            }
            match regenerated[i] {
                DecompileArtifact::DecompiledClasses => {
                    merged.decompiled_classes_version = table.decompiled_classes;
                },
                DecompileArtifact::LibrariesTxt => {
                    merged.libraries_output_version = table.libraries_txt;
                },
            }
            i += 1;
        }
        assert(regenerated@.subrange(0, i as int) =~= regenerated@);
        merged
    }
}

impl Default for SavedInfo {
    /// The ledger of a version that was never built.
    fn default() -> (info: SavedInfo)
        ensures
            info == SavedInfo::zero(),
    {
        SavedInfo { decompiled_classes_version: 0, libraries_output_version: 0 }
    }
}

/// The stale kinds written out: the decompiled classes first if they are
/// stale, then the library list if it is.
pub proof fn lemma_stale_kinds_unfold(info: SavedInfo, table: SchemaTable)
    ensures
        info.spec_stale_kinds(table) == (if info.is_stale(
            DecompileArtifact::DecompiledClasses,
            table,
        ) {
            seq![DecompileArtifact::DecompiledClasses]
        } else {
            Seq::<DecompileArtifact>::empty()
        }) + (if info.is_stale(DecompileArtifact::LibrariesTxt, table) {
            seq![DecompileArtifact::LibrariesTxt]
        } else {
            Seq::<DecompileArtifact>::empty()
        }),
{
    let kinds = DecompileArtifact::kinds();
    let pred = |artifact: DecompileArtifact| info.is_stale(artifact, table);
    reveal_with_fuel(Seq::filter, 3);
    let classes = if pred(DecompileArtifact::DecompiledClasses) {
        seq![DecompileArtifact::DecompiledClasses]
    } else {
        Seq::<DecompileArtifact>::empty()
    };
    assert(kinds.filter(pred) =~= classes + (if pred(DecompileArtifact::LibrariesTxt) {
        seq![DecompileArtifact::LibrariesTxt]
    } else {
        Seq::<DecompileArtifact>::empty()
    }));
}

/// The stale kinds as a sequence are the stale set, each kind once.
pub proof fn lemma_stale_kinds_are_stale_set(info: SavedInfo, table: SchemaTable)
    ensures
        info.spec_stale_kinds(table).to_set() == info.stale_set(table),
        info.spec_stale_kinds(table).no_duplicates(),
{
    lemma_stale_kinds_unfold(info, table);
    let stale = info.spec_stale_kinds(table);
    assert(stale.to_set() =~= info.stale_set(table));
}

/// Staleness correctness: under every schema table, a ledger is current
/// exactly when no kind is stale.
pub proof fn lemma_current_iff_nothing_stale(info: SavedInfo, table: SchemaTable)
    ensures
        info.spec_is_current(table) == info.stale_set(table).is_empty(),
        info.spec_is_current(table) == (info.spec_stale_kinds(table).len() == 0),
{
    lemma_stale_kinds_are_stale_set(info, table);
    let stale = info.spec_stale_kinds(table);
    if info.spec_is_current(table) {
        if stale.len() > 0 {
            assert(stale.to_set().contains(stale[0]));
        }
    } else {
        let artifact = choose|artifact: DecompileArtifact| info.is_stale(artifact, table);
        assert(stale.to_set().contains(artifact));
    }
}

/// Merge correctness: after a merge, a regenerated kind is recorded at its
/// schema version; any other kind keeps its recorded version, which is 0
/// where the old ledger is the default one.
pub proof fn lemma_merge_records(
    info: SavedInfo,
    regenerated: Set<DecompileArtifact>,
    table: SchemaTable,
    artifact: DecompileArtifact,
)
    ensures
        info.spec_merge(regenerated, table).recorded(artifact) == (if regenerated.contains(artifact) {
            table.spec_version_of(artifact)
        } else {
            info.recorded(artifact)
        }),
        SavedInfo::zero().recorded(artifact) == 0,
{
}

/// Rebuilding exactly the stale kinds brings a ledger up to date.
pub proof fn lemma_merge_of_stale_is_current(info: SavedInfo, table: SchemaTable)
    ensures
        info.spec_merge(info.stale_set(table), table).spec_is_current(table),
{
    let merged = info.spec_merge(info.stale_set(table), table);
    assert forall|artifact: DecompileArtifact| !merged.is_stale(artifact, table) by {
        lemma_merge_records(info, info.stale_set(table), table, artifact);
    }
}

} // verus!
