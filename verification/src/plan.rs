//! What a run does for one version: reuse the archived tree as it is, or
//! rebuild the kinds that are stale.

use vstd::prelude::*;
use crate::artifact::{
    lemma_kind_path_shape, lemma_kind_paths_disjoint, DecompileArtifact, SchemaTable,
};
use crate::index::{index_map, IndexEntry, ObjectId, StagedFile};
use crate::ledger::{
    lemma_current_iff_nothing_stale, lemma_merge_of_stale_is_current,
    lemma_stale_kinds_are_stale_set, SavedInfo,
};
use crate::path::{is_under, is_under_any, text_paths};
use crate::tree::{
    base_files, lemma_stage_sources_adds_under_roots, lemma_stage_sources_keeps, proper_root,
    repo_root_bytes, stage_sources, TreeBase, WalkedSource,
};

verus! {

/// What the archive holds of a version: the tree of the commit that the
/// version's tag leads to, and the ledger in that commit's message.
#[derive(Debug, Clone, Copy, PartialEq, Eq)]
pub struct ArchiveEntry {
    pub tree: ObjectId,
    pub ledger: SavedInfo,
}

/// What is to be done for a version.
#[derive(Debug, Clone, PartialEq, Eq)]
pub enum VersionPlan {
    /// The archived ledger is current: the archived tree is committed again
    /// as it is, with the same ledger. The producer is not invoked.
    Retag { tree: ObjectId, ledger: SavedInfo },
    /// Some kinds are stale, or the version was never archived: the kinds in
    /// `stale` are produced afresh and put into a new tree, on top of `base`
    /// where there is an archived tree; `ledger` is the ledger of the new
    /// commit.
    Rebuild { base: Option<TreeBase>, stale: Vec<DecompileArtifact>, ledger: SavedInfo },
}

/// The ledger that a version is archived with; all zero where it was never
/// archived.
pub open spec fn ledger_before(archived: Option<ArchiveEntry>) -> SavedInfo {
    match archived {
        Some(entry) => entry.ledger,
        None => SavedInfo::zero(),
    }
}

/// The archived tree is reused as it is: there is one, and its ledger is
/// current.
pub open spec fn reuses(archived: Option<ArchiveEntry>, table: SchemaTable) -> bool {
    archived is Some && ledger_before(archived).spec_is_current(table)
}

/// The ledger that a version is committed with: its ledger so far, with
/// every stale kind brought to its schema version.
pub open spec fn ledger_after(archived: Option<ArchiveEntry>, table: SchemaTable) -> SavedInfo {
    ledger_before(archived).spec_merge(ledger_before(archived).stale_set(table), table)
}

/// The repository paths of `kinds`, as bytes, in the same order.
pub open spec fn paths_of(kinds: Seq<DecompileArtifact>) -> Seq<Seq<u8>> {
    Seq::new(kinds.len(), |i: int| kinds[i].path_bytes())
}

/// `plan` is what is to be done for a version of which the archive holds
/// `archived`.
///
/// A version whose archived ledger is current under `table` is retagged,
/// with its archived tree and ledger. Any other version is rebuilt: exactly
/// its stale kinds are to be produced, in the order of the kinds; the base
/// is the archived tree without the paths of those kinds, and there is no
/// base where nothing is archived; the new ledger records the stale kinds
/// at their schema versions and every other kind as before.
pub open spec fn plans(plan: VersionPlan, archived: Option<ArchiveEntry>, table: SchemaTable) -> bool {
    match plan {
        VersionPlan::Retag { tree, ledger } => {
            &&& reuses(archived, table)
            &&& tree == archived->0.tree
            &&& ledger == archived->0.ledger
        },
        VersionPlan::Rebuild { base, stale, ledger } => {
            &&& !reuses(archived, table)
            &&& stale@ == ledger_before(archived).spec_stale_kinds(table)
            &&& ledger == ledger_after(archived, table)
            &&& match archived {
                Some(entry) => {
                    &&& base matches Some(from)
                    &&& from.tree == entry.tree
                    &&& text_paths(from.excluded_paths@) == paths_of(stale@)
                },
                None => base is None,
            }
        },
    }
}

/// The repository paths of `kinds`, in the same order.
fn repository_paths(kinds: &Vec<DecompileArtifact>) -> (paths: Vec<String>)
    ensures
        text_paths(paths@) == paths_of(kinds@),
{
    let mut paths: Vec<String> = Vec::new();
    let mut i: usize = 0;
    while i < kinds.len()
        invariant
            i <= kinds.len(),
            paths@.len() == i,
            forall|j: int| 0 <= j < i ==> (#[trigger] paths@[j])@ == kinds@[j].spec_path(),
        decreases kinds.len() - i,
    {
        paths.push(kinds[i].path_in_repository().to_owned());
        i += 1;
    }
    paths
}

/// Decides what to do for a version, given what the archive holds of it:
/// retag it where its archived ledger is current under `table`, rebuild
/// its stale kinds where it is not.
pub fn plan_version(archived: Option<ArchiveEntry>, table: &SchemaTable) -> (plan: VersionPlan)
    ensures
        plans(plan, archived, *table),
{
    let before = match archived {
        Some(entry) => entry.ledger,
        None => SavedInfo::default(),
    };
    if archived.is_some() && before.is_current_for(table) {
        let entry = archived.unwrap();
        return VersionPlan::Retag { tree: entry.tree, ledger: entry.ledger };
    }
    let stale = before.stale_kinds_for(table);
    proof {
        lemma_stale_kinds_are_stale_set(before, *table);
    }
    let ledger = before.merge_for(stale.as_slice(), table);
    let base = match archived {
        Some(entry) => Some(TreeBase { tree: entry.tree, excluded_paths: repository_paths(&stale) }),
        None => None,
    };
    VersionPlan::Rebuild { base, stale, ledger }
}

/// Whatever is decided for a version, its new ledger is current: the next
/// run finds nothing stale in it.
pub proof fn lemma_ledger_after_is_current(archived: Option<ArchiveEntry>, table: SchemaTable)
    ensures
        ledger_after(archived, table).spec_is_current(table),
        reuses(archived, table) ==> ledger_after(archived, table) == ledger_before(archived),
{
    let before = ledger_before(archived);
    lemma_merge_of_stale_is_current(before, table);
    if before.spec_is_current(table) {
        lemma_current_iff_nothing_stale(before, table);
    }
}

/// Idempotence, for one version: whatever a run found archived, and
/// whichever tree it committed, the next run under the same schema table
/// reuses that tree with that ledger and asks nothing of the producer.
pub proof fn lemma_rerun_retags(archived: Option<ArchiveEntry>, table: SchemaTable, tree: ObjectId)
    ensures
        ({
            let committed = Some(ArchiveEntry { tree, ledger: ledger_after(archived, table) });
            &&& reuses(committed, table)
            &&& ledger_after(committed, table) == ledger_after(archived, table)
            &&& ledger_before(committed).spec_stale_kinds(table).len() == 0
        }),
{
    lemma_ledger_after_is_current(archived, table);
    let committed = Some(ArchiveEntry { tree, ledger: ledger_after(archived, table) });
    lemma_ledger_after_is_current(committed, table);
    lemma_current_iff_nothing_stale(ledger_after(archived, table), table);
}

/// Tree reuse: a rebuild leaves the subtree of every kind that is not stale
/// exactly as the base tree has it.
///
/// The new tree starts from the base without the paths of the stale kinds,
/// and every source goes to the repository path of a stale kind. Then at
/// each path under the repository path of a kind that is not stale, the new
/// tree holds the very file that the base tree holds there, and holds none
/// where the base tree holds none.
pub proof fn lemma_tree_reuse(
    base: TreeBase,
    base_entries: Seq<IndexEntry>,
    stale: Seq<DecompileArtifact>,
    sources: Seq<WalkedSource>,
    kept: DecompileArtifact,
    path: Seq<u8>,
)
    requires
        text_paths(base.excluded_paths@) == paths_of(stale),
        forall|i: int|
            0 <= i < sources.len() ==> exists|j: int|
                0 <= j < stale.len() && repo_root_bytes(#[trigger] sources[i]) == stale[j].path_bytes(),
        !stale.contains(kept),
        is_under(path, kept.path_bytes()),
    ensures
        ({
            let tree = stage_sources(base_files(Some(base), base_entries), sources);
            &&& tree.contains_key(path) == index_map(base_entries).contains_key(path)
            &&& tree.contains_key(path) ==> tree[path] == index_map(base_entries)[path]
        }),
{
    let start = base_files(Some(base), base_entries);
    let roots = text_paths(base.excluded_paths@);
    assert(!is_under_any(path, roots)) by {
        if is_under_any(path, roots) {
            let i = choose|i: int| 0 <= i < roots.len() && is_under(path, #[trigger] roots[i]);
            lemma_kind_paths_disjoint(path, kept, stale[i]);
        }
    }
    assert forall|i: int| 0 <= i < sources.len() implies proper_root(#[trigger] sources[i])
        && !is_under(path, repo_root_bytes(sources[i])) by {
        let j = choose|j: int|
            0 <= j < stale.len() && repo_root_bytes(sources[i]) == stale[j].path_bytes();
        lemma_kind_path_shape(stale[j]);
        lemma_kind_paths_disjoint(path, kept, stale[j]);
    }
    lemma_stage_sources_keeps(start, sources, path);
}

/// Every file of `tree` lies in the subtree of some kind: nothing stands
/// at the top level of the tree but what a kind owns.
pub open spec fn owned_by_kinds(tree: Map<Seq<u8>, StagedFile>) -> bool {
    forall|path: Seq<u8>|
        tree.contains_key(path) ==> exists|kind: DecompileArtifact|
            is_under(path, #[trigger] kind.path_bytes())
}

/// Tree layout: a tree that is built from sources which all go to the
/// repository paths of kinds holds nothing outside the subtrees of the
/// kinds, as long as its base, where it has one, holds nothing outside
/// them either.
pub proof fn lemma_tree_layout(
    base: Option<TreeBase>,
    base_entries: Seq<IndexEntry>,
    sources: Seq<WalkedSource>,
)
    requires
        base is Some ==> owned_by_kinds(index_map(base_entries)),
        forall|i: int|
            0 <= i < sources.len() ==> exists|kind: DecompileArtifact|
                repo_root_bytes(#[trigger] sources[i]) == kind.path_bytes(),
    ensures
        owned_by_kinds(stage_sources(base_files(base, base_entries), sources)),
{
    let start = base_files(base, base_entries);
    let tree = stage_sources(start, sources);
    assert forall|i: int| 0 <= i < sources.len() implies proper_root(#[trigger] sources[i]) by {
        let kind = choose|kind: DecompileArtifact| repo_root_bytes(sources[i]) == kind.path_bytes();
        lemma_kind_path_shape(kind);
    }
    assert forall|path: Seq<u8>| tree.contains_key(path) implies exists|kind: DecompileArtifact|
        is_under(path, #[trigger] kind.path_bytes()) by {
        lemma_stage_sources_adds_under_roots(start, sources, path);
    }
}

} // verus!
