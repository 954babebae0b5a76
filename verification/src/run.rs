//! The archive driver: one run over the versions, in order, as a state
//! machine. The machine names the step that is due; the caller carries the
//! step out against the store and the producer and reports how it went.

use vstd::prelude::*;
use crate::artifact::SchemaTable;
use crate::chain::{commit_of, linear, Chain, Commit, CommitView};
use crate::error::MojError;
use crate::index::ObjectId;
use crate::ledger::SavedInfo;
use crate::metadata::{entries_of_ledger, toml_document};
use crate::plan::{
    ledger_after, ledger_before, lemma_ledger_after_is_current, lemma_rerun_retags, plan_version,
    plans, reuses, ArchiveEntry, VersionPlan,
};
use crate::version::Version;

verus! {

/// A version to process, with what the archive held of it before the run.
#[derive(Debug, Clone, PartialEq, Eq)]
pub struct VersionEntry {
    pub version: Version,
    pub archived: Option<ArchiveEntry>,
}

/// The step of a run that is due. Versions are named by their place in the
/// run's list.
#[derive(Debug, Clone, Copy, PartialEq, Eq, Structural)]
pub enum Step {
    /// Clear the branch, so that the chain can be rebuilt from its root.
    ClearBranch,
    /// Invoke the producer for the stale kinds of the version.
    Produce { version: usize },
    /// Build the version's new tree from its base and the producer's output.
    BuildTree { version: usize },
    /// Make the version's commit and move its tag there.
    CommitAndTag { version: usize },
    /// Reset branch, index and working copy to the last commit.
    ResetHard,
    /// The run is complete.
    Finished,
    /// The run has failed. Nothing more is done.
    Halted(MojError),
}

/// How the step that was due went.
#[derive(Debug, Clone, Copy, PartialEq, Eq)]
pub enum Outcome {
    /// The step succeeded.
    Done,
    /// The tree was built; this is its name.
    Tree(ObjectId),
    /// The step failed.
    Failed(MojError),
}

/// The ledger `ledger` can be written into a commit message.
pub open spec fn writable(ledger: SavedInfo) -> bool {
    toml_document(entries_of_ledger(ledger)) is Some
}

/// The step that commits a version: the commit itself, or a halt where the
/// version's ledger cannot be written.
pub open spec fn commit_step(version: usize, ledger: SavedInfo) -> Step {
    if writable(ledger) {
        Step::CommitAndTag { version }
    } else {
        Step::Halted(MojError::Commit)
    }
}

/// The first step for the version at `version`: the commit where the
/// archived tree is reused, the producer where some kind is stale, the tree
/// builder where the version is to be rebuilt and yet nothing is stale; and
/// the final reset where no version is left.
pub open spec fn opening_step(entries: Seq<VersionEntry>, table: SchemaTable, version: int) -> Step {
    if version < 0 || version >= entries.len() {
        Step::ResetHard
    } else if reuses(entries[version].archived, table) {
        commit_step(version as usize, ledger_after(entries[version].archived, table))
    } else if ledger_before(entries[version].archived).spec_stale_kinds(table).len() > 0 {
        Step::Produce { version: version as usize }
    } else {
        Step::BuildTree { version: version as usize }
    }
}

/// The step that follows `pending` after `outcome`.
///
/// A finished or halted run stays as it is. A failure halts the run with
/// its error. Else the branch clearing is followed by the first version;
/// the producer by the tree builder; the tree builder, which must name the
/// tree it built, by the commit; the commit by the next version; the last
/// version by the reset; the reset by the end. An outcome that does not
/// answer the step counts as a failure of that step.
pub open spec fn step_after(
    entries: Seq<VersionEntry>,
    table: SchemaTable,
    pending: Step,
    outcome: Outcome,
) -> Step {
    match pending {
        Step::Finished => Step::Finished,
        Step::Halted(error) => Step::Halted(error),
        Step::ClearBranch => match outcome {
            Outcome::Failed(error) => Step::Halted(error),
            Outcome::Done => opening_step(entries, table, 0),
            Outcome::Tree(_) => Step::Halted(MojError::Reset),
        },
        Step::Produce { version } => match outcome {
            Outcome::Failed(error) => Step::Halted(error),
            Outcome::Done => Step::BuildTree { version },
            Outcome::Tree(_) => Step::Halted(MojError::Decompilation),
        },
        Step::BuildTree { version } => match outcome {
            Outcome::Failed(error) => Step::Halted(error),
            Outcome::Done => Step::Halted(MojError::Commit),
            Outcome::Tree(_) => commit_step(
                version,
                ledger_after(entries[version as int].archived, table),
            ),
        },
        Step::CommitAndTag { version } => match outcome {
            Outcome::Failed(error) => Step::Halted(error),
            Outcome::Done => opening_step(entries, table, version + 1),
            Outcome::Tree(_) => Step::Halted(MojError::Commit),
        },
        Step::ResetHard => match outcome {
            Outcome::Failed(error) => Step::Halted(error),
            Outcome::Done => Step::Finished,
            Outcome::Tree(_) => Step::Halted(MojError::Reset),
        },
    }
}

/// The commit that archives `entry` at `place` of the chain with the tree
/// `tree`.
pub open spec fn commit_for(entry: VersionEntry, table: SchemaTable, place: nat, tree: ObjectId) -> CommitView {
    commit_of(
        place,
        entry.version,
        ledger_after(entry.archived, table),
        tree,
        toml_document(entries_of_ledger(ledger_after(entry.archived, table)))->0,
    )
}

/// The chain after `outcome`: one commit longer where a commit becomes
/// due, with the tree that was just built or, where the version is reused,
/// the archived one.
pub open spec fn history_after(
    entries: Seq<VersionEntry>,
    table: SchemaTable,
    history: Seq<CommitView>,
    pending: Step,
    outcome: Outcome,
) -> Seq<CommitView> {
    match step_after(entries, table, pending, outcome) {
        Step::CommitAndTag { version } => if pending is Finished || pending is Halted {
            history
        } else {
            history.push(
                commit_for(
                    entries[version as int],
                    table,
                    history.len(),
                    match outcome {
                        Outcome::Tree(tree) => tree,
                        _ => entries[version as int].archived->0.tree,
                    },
                ),
            )
        },
        _ => history,
    }
}

/// `commit` archives `entry` at `place` of the chain: it follows the commit
/// before it, bears the version's release time and name, carries the
/// version's new ledger, and holds the archived tree where that is reused.
pub open spec fn archives(commit: CommitView, entry: VersionEntry, table: SchemaTable, place: int) -> bool {
    &&& writable(ledger_after(entry.archived, table))
    &&& commit == commit_for(entry, table, place as nat, commit.tree)
    &&& reuses(entry.archived, table) ==> commit.tree == entry.archived->0.tree
}

/// How far a run has got with one version.
#[derive(Debug, Clone, Copy, PartialEq, Eq, Structural)]
pub enum VersionState {
    /// The run has not got to the version, or has failed before the
    /// version's commit was made.
    Unseen,
    /// Stale kinds of the version are being produced, built into a tree and
    /// committed.
    Rebuilding,
    /// The archived tree of the version is being committed again.
    UpToDate,
    /// The version is committed and tagged with new content.
    Committed,
    /// The version is committed and tagged with the content it had.
    Retagged,
}

/// The number of versions whose commit is made once `outcome` has answered
/// `pending`: one more than before where a commit has succeeded.
pub open spec fn confirmed_after(confirmed: nat, pending: Step, outcome: Outcome) -> nat {
    match (pending, outcome) {
        (Step::CommitAndTag { version }, Outcome::Done) => confirmed + 1,
        _ => confirmed,
    }
}

/// The state of the version at `version` in a run over `entries` in which
/// the commits of the first `confirmed` versions are made and `pending` is
/// due.
pub open spec fn state_of(
    entries: Seq<VersionEntry>,
    table: SchemaTable,
    confirmed: nat,
    pending: Step,
    version: int,
) -> VersionState {
    let reused = reuses(entries[version].archived, table);
    if version < confirmed {
        if reused {
            VersionState::Retagged
        } else {
            VersionState::Committed
        }
    } else {
        match pending {
            Step::Produce { version: at } => if at == version {
                VersionState::Rebuilding
            } else {
                VersionState::Unseen
            },
            Step::BuildTree { version: at } => if at == version {
                VersionState::Rebuilding
            } else {
                VersionState::Unseen
            },
            Step::CommitAndTag { version: at } => if at != version {
                VersionState::Unseen
            } else if reused {
                VersionState::UpToDate
            } else {
                VersionState::Rebuilding
            },
            _ => VersionState::Unseen,
        }
    }
}

/// One run of the archiver.
#[derive(Debug)]
pub struct ArchiveRun {
    table: SchemaTable,
    entries: Vec<VersionEntry>,
    chain: Chain,
    confirmed: usize,
    pending: Step,
}

impl ArchiveRun {
    /// The versions of the run, in the order in which they are processed.
    pub closed spec fn entries(&self) -> Seq<VersionEntry> {
        self.entries@
    }

    /// The schema table of the run.
    pub closed spec fn table(&self) -> SchemaTable {
        self.table
    }

    /// The commits that the run has asked for so far, oldest first.
    pub closed spec fn history(&self) -> Seq<CommitView> {
        self.chain.history()
    }

    /// The step that is due.
    pub closed spec fn spec_pending(&self) -> Step {
        self.pending
    }

    /// The number of versions whose commit is made. They are the first
    /// versions of the run.
    pub closed spec fn confirmed(&self) -> nat {
        self.confirmed as nat
    }

    /// The run is consistent: its chain is linear, holds one commit for each
    /// version that the run has got to, in order, and each of those commits
    /// archives its version.
    pub closed spec fn wf(&self) -> bool {
        let count = self.entries@.len();
        let history = self.chain.history();
        &&& self.chain.wf()
        &&& history.len() <= count
        &&& forall|place: int|
            0 <= place < history.len() ==> archives(
                #[trigger] history[place],
                self.entries@[place],
                self.table,
                place,
            )
        &&& self.confirmed <= history.len() <= self.confirmed + 1
        &&& match self.pending {
            Step::ClearBranch => history.len() == 0,
            Step::Produce { version } => {
                &&& version < count
                &&& history.len() == version
                &&& self.confirmed == version
                &&& !reuses(self.entries@[version as int].archived, self.table)
            },
            Step::BuildTree { version } => {
                &&& version < count
                &&& history.len() == version
                &&& self.confirmed == version
                &&& !reuses(self.entries@[version as int].archived, self.table)
            },
            Step::CommitAndTag { version } => {
                &&& version < count
                &&& history.len() == version + 1
                &&& self.confirmed == version
            },
            Step::ResetHard => history.len() == count && self.confirmed == count,
            Step::Finished => history.len() == count && self.confirmed == count,
            Step::Halted(_) => true,
        }
    }

    /// A run over `entries` under `table`. The first step is to clear the
    /// branch.
    pub fn new(entries: Vec<VersionEntry>, table: SchemaTable) -> (run: ArchiveRun)
        ensures
            run.wf(),
            run.entries() == entries@,
            run.table() == table,
            run.history() == Seq::<CommitView>::empty(),
            run.confirmed() == 0,
            run.spec_pending() == Step::ClearBranch,
    {
        ArchiveRun { table, entries, chain: Chain::new(), confirmed: 0, pending: Step::ClearBranch }
    }

    /// The step that is due.
    pub fn pending(&self) -> (step: Step)
        ensures
            step == self.spec_pending(),
    {
        self.pending
    }

    /// The number of versions of the run.
    pub fn len(&self) -> (count: usize)
        ensures
            count == self.entries().len(),
    {
        self.entries.len()
    }

    /// The version at `version` with what the archive held of it.
    pub fn entry(&self, version: usize) -> (entry: Option<&VersionEntry>)
        ensures
            entry == (if version < self.entries().len() {
                Some(&self.entries()[version as int])
            } else {
                None
            }),
    {
        if version < self.entries.len() {
            Some(&self.entries[version])
        } else {
            None
        }
    }

    /// What is to be done for the version at `version`: which kinds to
    /// produce, which base to build on, which ledger to commit.
    pub fn plan(&self, version: usize) -> (plan: Option<VersionPlan>)
        ensures
            match plan {
                Some(planned) => version < self.entries().len() && plans(
                    planned,
                    self.entries()[version as int].archived,
                    self.table(),
                ),
                None => version >= self.entries().len(),
            },
    {
        if version < self.entries.len() {
            Some(plan_version(self.entries[version].archived, &self.table))
        } else {
            None
        }
    }

    /// The commits that the run has asked for so far.
    pub fn chain(&self) -> (chain: &Chain)
        ensures
            chain.history() == self.history(),
    {
        &self.chain
    }

    /// The commit of the version at `version`, once the run has got to it.
    pub fn commit(&self, version: usize) -> (commit: Option<&Commit>)
        ensures
            match commit {
                Some(found) => version < self.history().len() && found@ == self.history()[version as int],
                None => version >= self.history().len(),
            },
    {
        self.chain.get(version)
    }

    /// How far the run has got with the version at `version`.
    pub fn state(&self, version: usize) -> (state: Option<VersionState>)
        ensures
            state == (if version < self.entries().len() {
                Some(
                    state_of(
                        self.entries(),
                        self.table(),
                        self.confirmed(),
                        self.spec_pending(),
                        version as int,
                    ),
                )
            } else {
                None
            }),
    {
        if version >= self.entries.len() {
            return None;
        }
        let reused = match plan_version(self.entries[version].archived, &self.table) {
            VersionPlan::Retag { .. } => true,
            VersionPlan::Rebuild { .. } => false,
        };
        let due = match self.pending {
            Step::Produce { version: at } => at == version,
            Step::BuildTree { version: at } => at == version,
            Step::CommitAndTag { version: at } => at == version,
            _ => false,
        };
        Some(
            if version < self.confirmed {
                if reused {
                    VersionState::Retagged
                } else {
                    VersionState::Committed
                }
            } else if !due {
                VersionState::Unseen
            } else if reused && self.pending == (Step::CommitAndTag { version }) {
                VersionState::UpToDate
            } else {
                VersionState::Rebuilding
            },
        )
    }

    /// Appends the commit of the version at `version` with the tree `tree`.
    fn commit_version(&mut self, version: usize, tree: ObjectId) -> (step: Step)
        requires
            old(self).chain.wf(),
            version < old(self).entries@.len(),
            old(self).chain.history().len() == version,
            reuses(old(self).entries@[version as int].archived, old(self).table) ==> tree == old(
                self,
            ).entries@[version as int].archived->0.tree,
        ensures
            final(self).entries == old(self).entries,
            final(self).table == old(self).table,
            final(self).pending == old(self).pending,
            final(self).confirmed == old(self).confirmed,
            final(self).chain.wf(),
            step == commit_step(
                version,
                ledger_after(old(self).entries@[version as int].archived, old(self).table),
            ),
            step is CommitAndTag ==> final(self).chain.history() == old(self).chain.history().push(
                commit_for(old(self).entries@[version as int], old(self).table, version as nat, tree),
            ),
            !(step is CommitAndTag) ==> final(self).chain.history() == old(self).chain.history(),
    {
        let ledger = match plan_version(self.entries[version].archived, &self.table) {
            VersionPlan::Retag { tree: _, ledger } => ledger,
            VersionPlan::Rebuild { base: _, stale: _, ledger } => ledger,
        };
        proof {
            lemma_ledger_after_is_current(self.entries@[version as int].archived, self.table);
        }
        match self.chain.commit_and_tag(&self.entries[version].version, &ledger, &tree) {
            Ok(_) => Step::CommitAndTag { version },
            Err(_) => Step::Halted(MojError::Commit),
        }
    }

    /// Opens the work on the version at `version`.
    fn open_version(&mut self, version: usize) -> (step: Step)
        requires
            old(self).chain.wf(),
            version <= old(self).entries@.len(),
            old(self).chain.history().len() == version,
        ensures
            final(self).entries == old(self).entries,
            final(self).table == old(self).table,
            final(self).pending == old(self).pending,
            final(self).confirmed == old(self).confirmed,
            final(self).chain.wf(),
            step == opening_step(old(self).entries@, old(self).table, version as int),
            step is CommitAndTag ==> final(self).chain.history() == old(self).chain.history().push(
                commit_for(
                    old(self).entries@[version as int],
                    old(self).table,
                    version as nat,
                    old(self).entries@[version as int].archived->0.tree,
                ),
            ),
            !(step is CommitAndTag) ==> final(self).chain.history() == old(self).chain.history(),
    {
        if version >= self.entries.len() {
            return Step::ResetHard;
        }
        match plan_version(self.entries[version].archived, &self.table) {
            VersionPlan::Retag { tree, ledger: _ } => self.commit_version(version, tree),
            VersionPlan::Rebuild { base: _, stale, ledger: _ } => {
                if stale.len() > 0 {
                    Step::Produce { version }
                } else {
                    Step::BuildTree { version }
                }
            },
        }
    }

    /// Takes note of how the step that was due went, and names the step that
    /// is due next.
    pub fn advance(&mut self, outcome: Outcome) -> (step: Step)
        requires
            old(self).wf(),
        ensures
            final(self).wf(),
            final(self).entries() == old(self).entries(),
            final(self).table() == old(self).table(),
            step == final(self).spec_pending(),
            step == step_after(old(self).entries(), old(self).table(), old(self).spec_pending(), outcome),
            final(self).confirmed() == confirmed_after(
                old(self).confirmed(),
                old(self).spec_pending(),
                outcome,
            ),
            final(self).history() == history_after(
                old(self).entries(),
                old(self).table(),
                old(self).history(),
                old(self).spec_pending(),
                outcome,
            ),
    {
        let pending = self.pending;
        let step = match pending {
            Step::Finished => Step::Finished,
            Step::Halted(error) => Step::Halted(error),
            Step::ClearBranch => match outcome {
                Outcome::Failed(error) => Step::Halted(error),
                Outcome::Done => self.open_version(0),
                Outcome::Tree(_) => Step::Halted(MojError::Reset),
            },
            Step::Produce { version } => match outcome {
                Outcome::Failed(error) => Step::Halted(error),
                Outcome::Done => Step::BuildTree { version },
                Outcome::Tree(_) => Step::Halted(MojError::Decompilation),
            },
            Step::BuildTree { version } => match outcome {
                Outcome::Failed(error) => Step::Halted(error),
                Outcome::Done => Step::Halted(MojError::Commit),
                Outcome::Tree(tree) => self.commit_version(version, tree),
            },
            Step::CommitAndTag { version } => match outcome {
                Outcome::Failed(error) => Step::Halted(error),
                Outcome::Done => {
                    let next = self.chain.len();
                    self.confirmed = next;
                    self.open_version(next)
                },
                Outcome::Tree(_) => Step::Halted(MojError::Commit),
            },
            Step::ResetHard => match outcome {
                Outcome::Failed(error) => Step::Halted(error),
                Outcome::Done => Step::Finished,
                Outcome::Tree(_) => Step::Halted(MojError::Reset),
            },
        };
        self.pending = step;
        step
    }
}

/// Chain linearity: when a run is finished, its chain holds exactly one
/// commit for each version, in the order of the versions; the first commit
/// has no parent and every other commit has the one before it as its only
/// parent; and each commit bears the release time and the name of its
/// version.
pub proof fn lemma_finished_chain(run: ArchiveRun)
    requires
        run.wf(),
        run.spec_pending() == Step::Finished,
    ensures
        run.history().len() == run.entries().len(),
        linear(run.history()),
        forall|place: int|
            0 <= place < run.history().len() ==> {
                &&& (#[trigger] run.history()[place]).time == run.entries()[place].version.release_time
                &&& run.history()[place].tag == run.entries()[place].version.id@
                &&& run.history()[place].ledger == ledger_after(run.entries()[place].archived, run.table())
            },
{
}

/// Terminal states: when a run is finished, every version is committed and
/// tagged, with new content where it was rebuilt and with the content it
/// had where its archived tree was reused.
pub proof fn lemma_finished_versions(run: ArchiveRun, version: int)
    requires
        run.wf(),
        run.spec_pending() == Step::Finished,
        0 <= version < run.entries().len(),
    ensures
        run.confirmed() == run.entries().len(),
        state_of(run.entries(), run.table(), run.confirmed(), run.spec_pending(), version) == (if reuses(
            run.entries()[version].archived,
            run.table(),
        ) {
            VersionState::Retagged
        } else {
            VersionState::Committed
        }),
        reuses(run.entries()[version].archived, run.table()) ==> run.history()[version].tree
            == run.entries()[version].archived->0.tree,
{
}

/// Idempotence: a second run that finds archived what a first run under
/// the same schema table committed reuses every tree, commits every
/// version with the tree and the ledger that the first run gave it, and
/// never gets to the producer.
pub proof fn lemma_rerun_is_idempotent(first: ArchiveRun, second: ArchiveRun)
    requires
        first.wf(),
        second.wf(),
        first.spec_pending() == Step::Finished,
        second.spec_pending() == Step::Finished,
        first.table() == second.table(),
        first.entries().len() == second.entries().len(),
        forall|place: int|
            0 <= place < second.entries().len() ==> (#[trigger] second.entries()[place]).archived
                == Some(
                ArchiveEntry { tree: first.history()[place].tree, ledger: first.history()[place].ledger },
            ),
    ensures
        second.history().len() == first.history().len(),
        forall|place: int|
            0 <= place < second.history().len() ==> {
                &&& (#[trigger] second.history()[place]).tree == first.history()[place].tree
                &&& second.history()[place].ledger == first.history()[place].ledger
                &&& opening_step(second.entries(), second.table(), place) == (Step::CommitAndTag {
                    version: place as usize,
                })
            },
{
    lemma_finished_chain(first);
    lemma_finished_chain(second);
    let table = first.table();
    assert forall|place: int| 0 <= place < second.history().len() implies {
        &&& (#[trigger] second.history()[place]).tree == first.history()[place].tree
        &&& second.history()[place].ledger == first.history()[place].ledger
        &&& opening_step(second.entries(), second.table(), place) == (Step::CommitAndTag {
            version: place as usize,
        })
    } by {
        let archived = first.entries()[place].archived;
        let tree = first.history()[place].tree;
        lemma_rerun_retags(archived, table, tree);
    }
}

} // verus!
