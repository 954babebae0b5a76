//! The content tree builder: the staging index of a version's tree, put
//! together from the reusable part of a base tree and from source files.

use vstd::prelude::*;
use vstd::slice::slice_to_vec;
use vstd::utf8::encode_utf8;
use crate::error::MojError;
use crate::index::{
    index_map, paths_under, IndexEntry, IndexTime, ObjectId, StagedFile, StagingIndex,
};
use crate::path::{is_under, join, join_path, lemma_join_is_under, text_paths, SEPARATOR};

verus! {

/// The tree that a rebuild starts from: the previous tree of the version,
/// without the subtrees that are being regenerated.
#[derive(Debug, Clone, PartialEq, Eq)]
pub struct TreeBase {
    /// The tree to base the new tree on.
    pub tree: ObjectId,
    /// Repository paths whose subtrees are dropped from the base.
    pub excluded_paths: Vec<String>,
}

/// A file or directory on disk and the repository path its content goes to.
#[derive(Debug, Clone, PartialEq, Eq)]
pub struct SourcePath {
    pub root: String,
    pub repo_root: String,
}

/// The metadata of a file as the file system reports it.
#[derive(Debug, Clone, Copy, PartialEq, Eq)]
pub struct FileStat {
    pub ctime: i64,
    pub ctime_nsec: i64,
    pub mtime: i64,
    pub mtime_nsec: i64,
    pub dev: u64,
    pub ino: u64,
    pub mode: u32,
    pub uid: u32,
    pub gid: u32,
    pub size: u64,
}

/// What a walk found at one place below a source directory.
#[derive(Debug, Clone, PartialEq, Eq)]
pub enum WalkEntry {
    /// A regular file, with its path relative to the source's root.
    File { relative: Vec<u8>, file: StagedFile },
    /// A directory. Trees hold no empty directories, so it adds nothing.
    Directory,
    /// Anything else: a symbolic link, a device, a socket.
    Other,
}

/// What was found at the root of a source.
#[derive(Debug, Clone, PartialEq, Eq)]
pub enum SourceContent {
    /// The root is a single regular file.
    SingleFile(StagedFile),
    /// The root is walked as a directory; the entries are in walk order.
    Walked(Vec<WalkEntry>),
}

/// A source after its root has been looked at.
#[derive(Debug, Clone, PartialEq, Eq)]
pub struct WalkedSource {
    pub source: SourcePath,
    pub content: SourceContent,
}

impl FileStat {
    /// Every field fits the width that an index entry has for it.
    pub open spec fn fits_index(self) -> bool {
        &&& i32::MIN <= self.ctime <= i32::MAX
        &&& 0 <= self.ctime_nsec <= u32::MAX
        &&& i32::MIN <= self.mtime <= i32::MAX
        &&& 0 <= self.mtime_nsec <= u32::MAX
        &&& self.dev <= u32::MAX
        &&& self.ino <= u32::MAX
        &&& self.size <= u32::MAX
    }

    /// The index record of a file with this metadata and the content `id`.
    pub open spec fn staged(self, id: ObjectId) -> StagedFile {
        StagedFile {
            ctime: IndexTime { seconds: self.ctime as i32, nanoseconds: self.ctime_nsec as u32 },
            mtime: IndexTime { seconds: self.mtime as i32, nanoseconds: self.mtime_nsec as u32 },
            dev: self.dev as u32,
            ino: self.ino as u32,
            mode: self.mode,
            uid: self.uid,
            gid: self.gid,
            file_size: self.size as u32,
            id,
            flags: 0,
            flags_extended: 0,
        }
    }
}

impl StagedFile {
    /// The index record of a file: its metadata narrowed to the widths of an
    /// index entry, and the object that holds its content. There is none
    /// where a value does not fit.
    pub fn from_metadata(stat: &FileStat, id: ObjectId) -> (file: Option<StagedFile>)
        ensures
            file == (if stat.fits_index() {
                Some(stat.staged(id))
            } else {
                None
            }),
    {
        if stat.ctime < -0x8000_0000 || stat.ctime > 0x7fff_ffff {
            return None;
        }
        if stat.ctime_nsec < 0 || stat.ctime_nsec > 0xffff_ffff {
            return None;
        }
        if stat.mtime < -0x8000_0000 || stat.mtime > 0x7fff_ffff {
            return None;
        }
        if stat.mtime_nsec < 0 || stat.mtime_nsec > 0xffff_ffff {
            return None;
        }
        if stat.dev > 0xffff_ffff || stat.ino > 0xffff_ffff || stat.size > 0xffff_ffff {
            return None;
        }
        Some(
            StagedFile {
                ctime: IndexTime {
                    seconds: stat.ctime as i32,
                    nanoseconds: stat.ctime_nsec as u32,
                },
                mtime: IndexTime {
                    seconds: stat.mtime as i32,
                    nanoseconds: stat.mtime_nsec as u32,
                },
                dev: stat.dev as u32,
                ino: stat.ino as u32,
                mode: stat.mode,
                uid: stat.uid,
                gid: stat.gid,
                file_size: stat.size as u32,
                id,
                flags: 0,
                flags_extended: 0,
            },
        )
    }
}

/// The name that git gives to a blob with the content `content`: what
/// `git2` computes as the hash of the blob. `None` where it computes none.
pub uninterp spec fn blob_id_of(content: Seq<u8>) -> Option<ObjectId>;

/// Hashes `content` as a blob with `git2::Oid::hash_object`; nothing is
/// stored. Nothing is claimed of the result but that it is a function of
/// `content`, named [`blob_id_of`].
#[verifier::external_body]
fn hash_blob(content: &[u8]) -> (id: Option<ObjectId>)
    ensures
        id == blob_id_of(content@),
{
    match git2::Oid::hash_object(git2::ObjectType::Blob, content) {
        Ok(oid) => match <[u8; 20]>::try_from(oid.as_bytes()) {
            Ok(bytes) => Some(ObjectId { bytes }),
            Err(_) => None,
        },
        Err(_) => None,
    }
}

/// The index record of a file with the metadata `stat` and the content
/// `content`: the file's object is the blob that its content hashes to.
///
/// Fails with [`MojError::Commit`] where the content cannot be hashed.
/// There is no record where the metadata does not fit an index entry.
pub fn stage_file(stat: &FileStat, content: &[u8]) -> (staged: Result<Option<StagedFile>, MojError>)
    ensures
        staged == (match blob_id_of(content@) {
            None => Err::<Option<StagedFile>, MojError>(MojError::Commit),
            Some(id) => Ok(
                if stat.fits_index() {
                    Some(stat.staged(id))
                } else {
                    None
                },
            ),
        }),
{
    match hash_blob(content) {
        None => Err(MojError::Commit),
        Some(id) => Ok(StagedFile::from_metadata(stat, id)),
    }
}

/// The repository path, as bytes, that a source's content goes to.
pub open spec fn repo_root_bytes(source: WalkedSource) -> Seq<u8> {
    encode_utf8(source.source.repo_root@)
}

/// A walk met nothing but regular files and directories.
pub open spec fn walk_supported(found: Seq<WalkEntry>) -> bool {
    forall|i: int| 0 <= i < found.len() ==> !(#[trigger] found[i] is Other)
}

/// A source holds nothing but regular files and directories.
pub open spec fn source_supported(source: WalkedSource) -> bool {
    match source.content {
        SourceContent::SingleFile(_) => true,
        SourceContent::Walked(found) => walk_supported(found@),
    }
}

/// No source holds anything but regular files and directories.
pub open spec fn sources_supported(sources: Seq<WalkedSource>) -> bool {
    forall|i: int| 0 <= i < sources.len() ==> source_supported(#[trigger] sources[i])
}

/// The index after the regular files of a walk have been staged below
/// `root`, each at `root` joined with its relative path.
pub open spec fn stage_walk(
    index: Map<Seq<u8>, StagedFile>,
    root: Seq<u8>,
    found: Seq<WalkEntry>,
) -> Map<Seq<u8>, StagedFile>
    decreases found.len(),
{
    if found.len() == 0 {
        index
    } else {
        let before = stage_walk(index, root, found.drop_last());
        match found.last() {
            WalkEntry::File { relative, file } => before.insert(join(root, relative@), file),
            _ => before,
        }
    }
}

/// The index after one source has been staged: a single file at the
/// source's repository path, a directory's files below it.
pub open spec fn stage_source(index: Map<Seq<u8>, StagedFile>, source: WalkedSource) -> Map<
    Seq<u8>,
    StagedFile,
> {
    match source.content {
        SourceContent::SingleFile(file) => index.insert(repo_root_bytes(source), file),
        SourceContent::Walked(found) => stage_walk(index, repo_root_bytes(source), found@),
    }
}

/// The index after all of `sources` have been staged, in order.
pub open spec fn stage_sources(index: Map<Seq<u8>, StagedFile>, sources: Seq<WalkedSource>) -> Map<
    Seq<u8>,
    StagedFile,
>
    decreases sources.len(),
{
    if sources.len() == 0 {
        index
    } else {
        stage_source(stage_sources(index, sources.drop_last()), sources.last())
    }
}

/// What a new tree starts from: nothing where there is no base, else the
/// entries of the base tree without those under an excluded path.
pub open spec fn base_files(base: Option<TreeBase>, base_entries: Seq<IndexEntry>) -> Map<
    Seq<u8>,
    StagedFile,
> {
    match base {
        None => Map::empty(),
        Some(base) => index_map(base_entries).remove_keys(
            paths_under(text_paths(base.excluded_paths@)),
        ),
    }
}

/// Stages one file that was found at `relative` below a source's root at
/// `repo_root` joined with `relative`.
pub fn add_file_to_index(
    index: &mut StagingIndex,
    repo_root: &[u8],
    relative: &[u8],
    file: StagedFile,
)
    ensures
        final(index)@ == old(index)@.insert(join(repo_root@, relative@), file),
{
    let path = join_path(repo_root, relative);
    index.add(IndexEntry { path, file });
}

/// Stages the regular files of a walk below `repo_root`. Fails at the first
/// entry that is neither a regular file nor a directory.
fn add_walk_to_index(index: &mut StagingIndex, repo_root: &[u8], found: &Vec<WalkEntry>) -> (done:
    bool)
    ensures
        done == walk_supported(found@),
        done ==> final(index)@ == stage_walk(old(index)@, repo_root@, found@),
{
    let mut i: usize = 0;
    while i < found.len()
        invariant
            i <= found.len(),
            walk_supported(found@.subrange(0, i as int)),
            index@ == stage_walk(old(index)@, repo_root@, found@.subrange(0, i as int)),
        decreases found.len() - i,
    {
        let ghost next = found@.subrange(0, i + 1);
        assert(next.drop_last() =~= found@.subrange(0, i as int));
        match &found[i] {
            WalkEntry::File { relative, file } => {
                add_file_to_index(index, repo_root, relative.as_slice(), *file);
            },
            WalkEntry::Directory => {},
            WalkEntry::Other => {
                return false;
            },
        }
        i += 1;
    }
    assert(found@.subrange(0, i as int) =~= found@);
    true
}

/// Builds the staging index of a new tree.
///
/// With a base, the index starts from the entries of the base tree,
/// `base_entries`, without every entry that falls under one of the base's
/// excluded paths; what is kept is carried over as it is. Without a base it
/// starts empty. Then each source is staged in order: a single file at the
/// source's repository path, the regular files of a walked directory below
/// it.
///
/// Fails with [`MojError::Commit`] where the base tree could not be loaded
/// (`base_entries` is `None` although there is a base) or a source holds
/// something that is neither a regular file nor a directory.
pub fn create_tree(
    base: Option<TreeBase>,
    base_entries: Option<Vec<IndexEntry>>,
    source_files: &Vec<WalkedSource>,
) -> (tree: Result<StagingIndex, MojError>)
    ensures
        match tree {
            Ok(index) => {
                &&& base is Some ==> base_entries is Some
                &&& sources_supported(source_files@)
                &&& index@ == stage_sources(
                    base_files(
                        base,
                        match base_entries {
                            Some(entries) => entries@,
                            None => Seq::empty(),
                        },
                    ),
                    source_files@,
                )
            },
            Err(error) => {
                &&& error == MojError::Commit
                &&& (base is Some && base_entries is None) || !sources_supported(source_files@)
            },
        },
{
    let mut index = StagingIndex::new();
    if let Some(base) = base {
        match base_entries {
            Some(entries) => {
                index.read_tree(entries);
                index.remove_all(&base.excluded_paths);
            },
            None => {
                return Err(MojError::Commit);
            },
        }
    }
    let ghost start = index@;
    let mut i: usize = 0;
    while i < source_files.len()
        invariant
            i <= source_files.len(),
            sources_supported(source_files@.subrange(0, i as int)),
            index@ == stage_sources(start, source_files@.subrange(0, i as int)),
        decreases source_files.len() - i,
    {
        let ghost next = source_files@.subrange(0, i + 1);
        assert(next.drop_last() =~= source_files@.subrange(0, i as int));
        let source = &source_files[i];
        let repo_root = source.source.repo_root.as_str().as_bytes();
        match &source.content {
            SourceContent::SingleFile(file) => {
                index.add(IndexEntry { path: slice_to_vec(repo_root), file: *file });
            },
            SourceContent::Walked(found) => {
                if !add_walk_to_index(&mut index, repo_root, found) {
                    return Err(MojError::Commit);
                }
            },
        }
        i += 1;
    }
    assert(source_files@.subrange(0, i as int) =~= source_files@);
    Ok(index)
}

/// A source's repository path names a place below which content can go:
/// it is not empty and does not end in a separator.
pub open spec fn proper_root(source: WalkedSource) -> bool {
    repo_root_bytes(source).len() > 0 && repo_root_bytes(source).last() != SEPARATOR
}

/// Staging a walk below `root` touches only paths under `root`.
pub proof fn lemma_stage_walk_keeps(
    index: Map<Seq<u8>, StagedFile>,
    root: Seq<u8>,
    found: Seq<WalkEntry>,
    path: Seq<u8>,
)
    requires
        root.len() > 0,
        root.last() != SEPARATOR,
        !is_under(path, root),
    ensures
        stage_walk(index, root, found).contains_key(path) == index.contains_key(path),
        index.contains_key(path) ==> stage_walk(index, root, found)[path] == index[path],
    decreases found.len(),
{
    if found.len() > 0 {
        lemma_stage_walk_keeps(index, root, found.drop_last(), path);
        if let WalkEntry::File { relative, file } = found.last() {
            lemma_join_is_under(root, relative@);
        }
    }
}

/// Staging sources touches only paths under the repository paths of those
/// sources: a file at any other path stays in the index, unchanged, and no
/// file appears at a path that had none.
pub proof fn lemma_stage_sources_keeps(
    index: Map<Seq<u8>, StagedFile>,
    sources: Seq<WalkedSource>,
    path: Seq<u8>,
)
    requires
        forall|i: int| 0 <= i < sources.len() ==> proper_root(#[trigger] sources[i]),
        forall|i: int|
            0 <= i < sources.len() ==> !is_under(path, repo_root_bytes(#[trigger] sources[i])),
    ensures
        stage_sources(index, sources).contains_key(path) == index.contains_key(path),
        index.contains_key(path) ==> stage_sources(index, sources)[path] == index[path],
    decreases sources.len(),
{
    if sources.len() > 0 {
        let before = stage_sources(index, sources.drop_last());
        lemma_stage_sources_keeps(index, sources.drop_last(), path);
        let last = sources.last();
        match last.content {
            SourceContent::SingleFile(file) => {},
            SourceContent::Walked(found) => {
                lemma_stage_walk_keeps(before, repo_root_bytes(last), found@, path);
            },
        }
    }
}

/// Whatever is in the index after sources were staged was in it before or
/// lies under the repository path of one of the sources.
pub proof fn lemma_stage_sources_adds_under_roots(
    index: Map<Seq<u8>, StagedFile>,
    sources: Seq<WalkedSource>,
    path: Seq<u8>,
)
    requires
        forall|i: int| 0 <= i < sources.len() ==> proper_root(#[trigger] sources[i]),
        stage_sources(index, sources).contains_key(path),
    ensures
        index.contains_key(path) || exists|i: int|
            0 <= i < sources.len() && is_under(path, repo_root_bytes(#[trigger] sources[i])),
{
    if !exists|i: int| 0 <= i < sources.len() && is_under(path, repo_root_bytes(#[trigger] sources[i])) {
        lemma_stage_sources_keeps(index, sources, path);
    }
}

} // verus!
