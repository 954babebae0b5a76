//! The staging index: the files of a tree under construction, by path.

use vstd::prelude::*;
use crate::path::{is_under_any, path_is_under_any, text_paths, bytes_eq};

verus! {

/// The name of an immutable object in the store: a blob, a tree or a commit.
#[derive(Debug, Clone, Copy, PartialEq, Eq, Hash)]
pub struct ObjectId {
    pub bytes: [u8; 20],
}

/// A point in time as an index entry records it.
#[derive(Debug, Clone, Copy, PartialEq, Eq, Hash)]
pub struct IndexTime {
    pub seconds: i32,
    pub nanoseconds: u32,
}

/// What the index records of one file: the object that holds its content and
/// the metadata stored with it.
#[derive(Debug, Clone, Copy, PartialEq, Eq, Hash)]
pub struct StagedFile {
    pub ctime: IndexTime,
    pub mtime: IndexTime,
    pub dev: u32,
    pub ino: u32,
    pub mode: u32,
    pub uid: u32,
    pub gid: u32,
    pub file_size: u32,
    pub id: ObjectId,
    pub flags: u16,
    pub flags_extended: u16,
}

/// One entry of the index: a file and the repository path it is staged at.
#[derive(Debug, Clone, PartialEq, Eq, Hash)]
pub struct IndexEntry {
    pub path: Vec<u8>,
    pub file: StagedFile,
}

/// The files that a sequence of entries stages, by path. Where two entries
/// name the same path, the later one stands.
pub open spec fn index_map(entries: Seq<IndexEntry>) -> Map<Seq<u8>, StagedFile>
    decreases entries.len(),
{
    if entries.len() == 0 {
        Map::empty()
    } else {
        index_map(entries.drop_last()).insert(entries.last().path@, entries.last().file)
    }
}

/// The paths that fall under one of `roots`.
pub open spec fn paths_under(roots: Seq<Seq<u8>>) -> Set<Seq<u8>> {
    Set::new(|path: Seq<u8>| is_under_any(path, roots))
}

/// Staging one more entry after `entries` puts its file at its path.
pub proof fn lemma_index_map_push(entries: Seq<IndexEntry>, entry: IndexEntry)
    ensures
        index_map(entries.push(entry)) == index_map(entries).insert(entry.path@, entry.file),
{
    assert(entries.push(entry).drop_last() =~= entries);
}

/// A staging index in memory. Entries are kept in the order in which they
/// were staged; writing them out in that order, each one replacing what was
/// at its path, yields the files of [`StagingIndex::view`].
#[derive(Debug)]
pub struct StagingIndex {
    entries: Vec<IndexEntry>,
}

impl View for StagingIndex {
    type V = Map<Seq<u8>, StagedFile>;

    /// The staged files, by path.
    closed spec fn view(&self) -> Map<Seq<u8>, StagedFile> {
        index_map(self.entries@)
    }
}

impl StagingIndex {
    /// An index that stages nothing.
    pub fn new() -> (index: StagingIndex)
        ensures
            index@ == Map::<Seq<u8>, StagedFile>::empty(),
    {
        StagingIndex { entries: Vec::new() }
    }

    /// Drops every staged file.
    pub fn clear(&mut self)
        ensures
            final(self)@ == Map::<Seq<u8>, StagedFile>::empty(),
    {
        self.entries = Vec::new();
    }

    /// Replaces what is staged by the entries of a tree.
    pub fn read_tree(&mut self, entries: Vec<IndexEntry>)
        ensures
            final(self)@ == index_map(entries@),
    {
        self.entries = entries;
    }

    /// Stages `entry`, in place of whatever was staged at its path.
    pub fn add(&mut self, entry: IndexEntry)
        ensures
            final(self)@ == old(self)@.insert(entry.path@, entry.file),
    {
        proof {
            lemma_index_map_push(self.entries@, entry);
        }
        self.entries.push(entry);
    }

    /// Unstages every file whose path falls under one of `roots`; all other
    /// files stay as they are.
    pub fn remove_all(&mut self, roots: &Vec<String>)
        ensures
            final(self)@ == old(self)@.remove_keys(paths_under(text_paths(roots@))),
    {
        let mut staged: Vec<IndexEntry> = Vec::new();
        std::mem::swap(&mut self.entries, &mut staged);
        let ghost excluded = paths_under(text_paths(roots@));
        let ghost before = staged@;
        let mut kept: Vec<IndexEntry> = Vec::new();
        for entry in it: staged
            invariant
                excluded == paths_under(text_paths(roots@)),
                it.seq() == before,
                index_map(kept@) == index_map(before.subrange(0, it.index() as int)).remove_keys(excluded),
        {
            let ghost done = before.subrange(0, it.index() as int);
            proof {
                assert(before.subrange(0, it.index() + 1) =~= done.push(entry));
                lemma_index_map_push(done, entry);
                lemma_index_map_push(kept@, entry);
            }
            if !path_is_under_any(entry.path.as_slice(), roots) {
                assert(index_map(done.push(entry)).remove_keys(excluded)
                    =~= index_map(done).remove_keys(excluded).insert(entry.path@, entry.file));
                kept.push(entry);
            } else {
                assert(index_map(done.push(entry)).remove_keys(excluded)
                    =~= index_map(done).remove_keys(excluded));
            }
        }
        assert(before.subrange(0, before.len() as int) =~= before);
        self.entries = kept;
    }

    /// The file staged at `path`, if there is one.
    pub fn get(&self, path: &[u8]) -> (file: Option<StagedFile>)
        ensures
            file == (if self@.contains_key(path@) {
                Some(self@[path@])
            } else {
                None
            }),
    {
        let mut i: usize = self.entries.len();
        while i > 0
            invariant
                i <= self.entries.len(),
                forall|j: int| i <= j < self.entries.len() ==> (#[trigger] self.entries@[j]).path@ != path@,
            decreases i,
        {
            i -= 1;
            if bytes_eq(self.entries[i].path.as_slice(), path) {
                proof {
                    lemma_index_map_last_match(self.entries@, i as int, path@);
                }
                return Some(self.entries[i].file);
            }
        }
        proof {
            lemma_index_map_no_match(self.entries@, path@);
        }
        None
    }

    /// The staged entries in the order in which they were staged.
    pub fn entries(&self) -> (entries: &Vec<IndexEntry>)
        ensures
            index_map(entries@) == self@,
    {
        &self.entries
    }
}

/// A path that no entry names is not staged.
pub proof fn lemma_index_map_no_match(entries: Seq<IndexEntry>, path: Seq<u8>)
    requires
        forall|j: int| 0 <= j < entries.len() ==> (#[trigger] entries[j]).path@ != path,
    ensures
        !index_map(entries).contains_key(path),
    decreases entries.len(),
{
    if entries.len() > 0 {
        lemma_index_map_no_match(entries.drop_last(), path);
    }
}

/// The last entry that names a path decides which file is staged there.
pub proof fn lemma_index_map_last_match(entries: Seq<IndexEntry>, i: int, path: Seq<u8>)
    requires
        0 <= i < entries.len(),
        entries[i].path@ == path,
        forall|j: int| i < j < entries.len() ==> (#[trigger] entries[j]).path@ != path,
    ensures
        index_map(entries).contains_key(path),
        index_map(entries)[path] == entries[i].file,
    decreases entries.len(),
{
    if i < entries.len() - 1 {
        lemma_index_map_last_match(entries.drop_last(), i, path);
    }
}

} // verus!
