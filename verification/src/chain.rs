//! The chain builder: one commit per version on a linear history, each
//! stamped with its version's release time and tagged with its version's
//! name; and the clearing of the branch that the chain is rebuilt on.

use vstd::prelude::*;
use vstd::string::StringExecFns;
use crate::error::MojError;
use crate::index::ObjectId;
use crate::ledger::SavedInfo;
use crate::metadata::{commit_message, entries_of_ledger, message_text, toml_document};
use crate::path::str_eq;
use crate::version::Version;

verus! {

/// One commit of the chain. It is made on top of `parent` and moves the
/// branch to itself; author and committer time are both `time`, at offset
/// zero; the tag named `tag`, whose message is its own name, is then moved
/// to the commit, whether or not it existed before.
#[derive(Debug, Clone, PartialEq, Eq)]
pub struct Commit {
    /// The tree of the commit.
    pub tree: ObjectId,
    /// The place in the chain of the commit's only parent; `None` where the
    /// commit is the root of the chain.
    pub parent: Option<usize>,
    /// Author and committer time, in seconds since the Unix epoch.
    pub time: i64,
    /// The commit message: a summary line, a blank line, the ledger.
    pub message: String,
    /// The name of the tag that leads to the commit.
    pub tag: String,
    /// The ledger that the message carries.
    pub ledger: SavedInfo,
}

/// A commit as a mathematical value.
pub struct CommitView {
    pub tree: ObjectId,
    pub parent: Option<int>,
    pub time: int,
    pub message: Seq<char>,
    pub tag: Seq<char>,
    pub ledger: SavedInfo,
}

impl View for Commit {
    type V = CommitView;

    open spec fn view(&self) -> CommitView {
        CommitView {
            tree: self.tree,
            parent: match self.parent {
                Some(place) => Some(place as int),
                None => None,
            },
            time: self.time as int,
            message: self.message@,
            tag: self.tag@,
            ledger: self.ledger,
        }
    }
}

impl Commit {
    /// A copy of the commit.
    pub fn duplicate(&self) -> (copy: Commit)
        ensures
            copy@ == self@,
    {
        Commit {
            tree: self.tree,
            parent: self.parent,
            time: self.time,
            message: self.message.clone(),
            tag: self.tag.clone(),
            ledger: self.ledger,
        }
    }
}

/// The commit that archives a version on top of a chain of `length`
/// commits, where the ledger is written as `body`.
pub open spec fn commit_of(
    length: nat,
    version: Version,
    info: SavedInfo,
    tree: ObjectId,
    body: Seq<char>,
) -> CommitView {
    CommitView {
        tree,
        parent: if length == 0 {
            None
        } else {
            Some(length - 1)
        },
        time: version.release_time as int,
        message: message_text(version.id@, body),
        tag: version.id@,
        ledger: info,
    }
}

/// A history is linear: its first commit has no parent, and every other
/// commit has the commit before it as its only parent.
pub open spec fn linear(history: Seq<CommitView>) -> bool {
    forall|place: int|
        0 <= place < history.len() ==> (#[trigger] history[place]).parent == (if place == 0 {
            None
        } else {
            Some(place - 1)
        })
}

/// The place of the commit that the tag `name` leads to in `history`: the
/// last commit that bears the tag. A tag always leads to the commit that
/// was made last under its name.
pub open spec fn tag_target(history: Seq<CommitView>, name: Seq<char>) -> Option<int>
    decreases history.len(),
{
    if history.len() == 0 {
        None
    } else if history.last().tag == name {
        Some(history.len() - 1)
    } else {
        tag_target(history.drop_last(), name)
    }
}

/// The chain of commits that a run has made so far, oldest first.
#[derive(Debug)]
pub struct Chain {
    commits: Vec<Commit>,
}

impl Chain {
    /// The commits of the chain, oldest first.
    pub closed spec fn history(&self) -> Seq<CommitView> {
        Seq::new(self.commits@.len(), |place: int| self.commits@[place]@)
    }

    /// The chain is linear. Every chain that this module hands out is.
    pub open spec fn wf(&self) -> bool {
        linear(self.history())
    }

    /// The chain on a branch that was just cleared: no commit yet.
    pub fn new() -> (chain: Chain)
        ensures
            chain.history() == Seq::<CommitView>::empty(),
            chain.wf(),
    {
        let chain = Chain { commits: Vec::new() };
        chain
    }

    /// The number of commits.
    pub fn len(&self) -> (length: usize)
        ensures
            length == self.history().len(),
    {
        self.commits.len()
    }

    /// The commit at `place`, counted from the oldest.
    pub fn get(&self, place: usize) -> (commit: Option<&Commit>)
        ensures
            match commit {
                Some(found) => place < self.history().len() && found@ == self.history()[place as int],
                None => place >= self.history().len(),
            },
    {
        if place < self.commits.len() {
            Some(&self.commits[place])
        } else {
            None
        }
    }

    /// The commit that the tag `name` leads to, if the chain has moved the
    /// tag.
    pub fn tagged(&self, name: &str) -> (commit: Option<&Commit>)
        ensures
            match commit {
                Some(found) => tag_target(self.history(), name@) matches Some(place) && 0 <= place
                    < self.history().len() && found@ == self.history()[place],
                None => tag_target(self.history(), name@) is None,
            },
    {
        let ghost history = self.history();
        let mut place: usize = self.commits.len();
        assert(history.take(place as int) =~= history);
        while place > 0
            invariant
                place <= self.commits.len(),
                history == self.history(),
                tag_target(history, name@) == tag_target(history.take(place as int), name@),
            decreases place,
        {
            let ghost upto = history.take(place as int);
            assert(upto.drop_last() =~= history.take(place - 1));
            place -= 1;
            if str_eq(self.commits[place].tag.as_str(), name) {
                return Some(&self.commits[place]);
            }
        }
        None
    }

    /// Appends the commit that archives `version` with the tree `tree` and
    /// the ledger `saved_info`, whose written form is `body`, and returns
    /// the commit for the caller to carry out.
    ///
    /// The commit's parent is the chain's last commit, or none on an empty
    /// chain; its time is the version's release time, not the time of the
    /// run; its message holds `body` after the summary; its tag is the
    /// version's name.
    pub fn append(&mut self, version: &Version, saved_info: &SavedInfo, tree: &ObjectId, body: &str) -> (made:
        Commit)
        ensures
            old(self).wf() ==> final(self).wf(),
            made@ == commit_of(old(self).history().len(), *version, *saved_info, *tree, body@),
            final(self).history() == old(self).history().push(made@),
    {
        let length = self.commits.len();
        let commit = Commit {
            tree: *tree,
            parent: if length == 0 {
                None
            } else {
                Some(length - 1)
            },
            time: version.release_time,
            message: commit_message(version.id.as_str(), body),
            tag: version.id.clone(),
            ledger: *saved_info,
        };
        let copy = commit.duplicate();
        let ghost before = self.history();
        self.commits.push(commit);
        assert(self.history() =~= before.push(copy@));
        copy
    }

    /// Appends the commit that archives `version` with the tree `tree` and
    /// the ledger `saved_info`, and returns it for the caller to carry out:
    /// the commit that [`Chain::append`] makes with the ledger as it is
    /// written into a commit message.
    ///
    /// Fails with [`MojError::Commit`], leaving the chain as it was, where
    /// the ledger cannot be written.
    pub fn commit_and_tag(&mut self, version: &Version, saved_info: &SavedInfo, tree: &ObjectId) -> (made:
        Result<Commit, MojError>)
        ensures
            old(self).wf() ==> final(self).wf(),
            match made {
                Ok(commit) => {
                    &&& toml_document(entries_of_ledger(*saved_info)) matches Some(body)
                    &&& commit@ == commit_of(old(self).history().len(), *version, *saved_info, *tree, body)
                    &&& final(self).history() == old(self).history().push(commit@)
                },
                Err(error) => {
                    &&& error == MojError::Commit
                    &&& toml_document(entries_of_ledger(*saved_info)) is None
                    &&& final(self).history() == old(self).history()
                },
            },
    {
        match saved_info.to_toml() {
            Some(body) => Ok(self.append(version, saved_info, tree, body.as_str())),
            None => Err(MojError::Commit),
        }
    }
}

/// Where `HEAD` stands when a run begins.
#[derive(Debug, Clone, PartialEq, Eq)]
pub enum Head {
    /// `HEAD` names a branch that has no commit yet.
    Unborn,
    /// `HEAD` names the branch `name`, whose tip is `target`.
    Branch { name: String, target: ObjectId },
    /// `HEAD` names a commit directly, not a branch.
    Detached { target: ObjectId },
    /// `HEAD` could not be read.
    Unreadable,
}

/// How to clear the current branch, step by step.
#[derive(Debug, Clone, PartialEq, Eq)]
pub struct BranchReset {
    /// First, detach `HEAD` at this commit.
    pub detach_at: ObjectId,
    /// Then delete the local branch of this name.
    pub delete_branch: String,
    /// Last, point `HEAD` at this reference, which does not exist any more,
    /// so that the next commit starts the branch anew.
    pub head_reference: String,
}

/// The full name of the local branch `branch`.
pub open spec fn spec_branch_reference(branch: Seq<char>) -> Seq<char> {
    "refs/heads/"@ + branch
}

/// The full name of the tag of the version `version_id`.
pub open spec fn spec_version_reference(version_id: Seq<char>) -> Seq<char> {
    "refs/tags/"@ + version_id
}

/// The full name of the local branch `branch`.
pub fn branch_reference(branch: &str) -> (reference: String)
    ensures
        reference@ == spec_branch_reference(branch@),
{
    String::from_str("refs/heads/").concat(branch)
}

/// The full name of the tag of the version `version_id`.
pub fn version_reference(version_id: &str) -> (reference: String)
    ensures
        reference@ == spec_version_reference(version_id@),
{
    String::from_str("refs/tags/").concat(version_id)
}

/// Decides how to clear the branch that `HEAD` names, so that a fresh
/// linear history can be built on it from the tags.
///
/// An unborn branch is clear already: nothing is to be done. A branch with
/// commits is cleared by detaching `HEAD` at the branch's tip, deleting the
/// branch and pointing `HEAD` back at its name. Fails with
/// [`MojError::Reset`] where `HEAD` is detached or cannot be read.
pub fn clear_branch(head: &Head) -> (plan: Result<Option<BranchReset>, MojError>)
    ensures
        match *head {
            Head::Unborn => plan == Ok::<Option<BranchReset>, MojError>(None),
            Head::Branch { name, target } => {
                &&& plan matches Ok(Some(reset))
                &&& reset.detach_at == target
                &&& reset.delete_branch@ == name@
                &&& reset.head_reference@ == spec_branch_reference(name@)
            },
            Head::Detached { .. } => plan == Err::<Option<BranchReset>, MojError>(MojError::Reset),
            Head::Unreadable => plan == Err::<Option<BranchReset>, MojError>(MojError::Reset),
        },
{
    match head {
        Head::Unborn => Ok(None),
        Head::Branch { name, target } => Ok(
            Some(
                BranchReset {
                    detach_at: *target,
                    delete_branch: name.clone(),
                    head_reference: branch_reference(name.as_str()),
                },
            ),
        ),
        Head::Detached { .. } => Err(MojError::Reset),
        Head::Unreadable => Err(MojError::Reset),
    }
}

/// A commit moves the tag of its version to itself and leaves every other
/// tag where it was.
pub proof fn lemma_commit_moves_its_tag(history: Seq<CommitView>, commit: CommitView, name: Seq<char>)
    ensures
        tag_target(history.push(commit), name) == (if name == commit.tag {
            Some(history.len() as int)
        } else {
            tag_target(history, name)
        }),
{
    assert(history.push(commit).drop_last() =~= history);
}

/// Chain linearity, one step: appending the commit of a version to a linear
/// history keeps it linear, makes it one commit longer, and stamps the new
/// commit with the version's release time.
pub proof fn lemma_commit_keeps_linear(
    history: Seq<CommitView>,
    version: Version,
    info: SavedInfo,
    tree: ObjectId,
    body: Seq<char>,
)
    requires
        linear(history),
    ensures
        linear(history.push(commit_of(history.len(), version, info, tree, body))),
        history.push(commit_of(history.len(), version, info, tree, body)).len() == history.len() + 1,
        history.push(commit_of(history.len(), version, info, tree, body)).last().time
            == version.release_time,
{
}

} // verus!
