//! Repository paths as byte strings: equality, subtree membership, joining.

use vstd::prelude::*;
use vstd::utf8::*;

verus! {

/// The byte that separates the components of a repository path.
pub const SEPARATOR: u8 = 0x2f;

/// `path` names `root` itself or something in the subtree below it.
///
/// This is a match on whole components: `src/a` and `src` fall under `src`,
/// `srcs` and `sr` do not.
pub open spec fn is_under(path: Seq<u8>, root: Seq<u8>) -> bool {
    ||| path == root
    ||| (path.len() > root.len() && path.subrange(0, root.len() as int) == root
        && path[root.len() as int] == SEPARATOR)
}

/// `path` falls under at least one of `roots`.
pub open spec fn is_under_any(path: Seq<u8>, roots: Seq<Seq<u8>>) -> bool {
    exists|i: int| 0 <= i < roots.len() && is_under(path, #[trigger] roots[i])
}

/// The path of `relative` below `root`: the two joined by one separator,
/// which is left out where `root` is empty or already ends in one.
pub open spec fn join(root: Seq<u8>, relative: Seq<u8>) -> Seq<u8> {
    if root.len() == 0 {
        relative
    } else if root.last() == SEPARATOR {
        root + relative
    } else {
        root.push(SEPARATOR) + relative
    }
}

/// The bytes of the text paths in `paths`, in the same order.
pub open spec fn text_paths(paths: Seq<String>) -> Seq<Seq<u8>> {
    Seq::new(paths.len(), |i: int| encode_utf8(paths[i]@))
}

/// Whether two byte strings are equal.
pub fn bytes_eq(a: &[u8], b: &[u8]) -> (equal: bool)
    ensures
        equal == (a@ == b@),
{
    if a.len() != b.len() {
        return false;
    }
    let mut i: usize = 0;
    while i < a.len()
        invariant
            a.len() == b.len(),
            i <= a.len(),
            a@.subrange(0, i as int) == b@.subrange(0, i as int),
        decreases a.len() - i,
    {
        if a[i] != b[i] {
            return false;
        }
        i += 1;
    }
    assert(a@ =~= a@.subrange(0, i as int));
    assert(b@ =~= b@.subrange(0, i as int));
    true
}

/// Whether two texts are equal.
pub fn str_eq(a: &str, b: &str) -> (equal: bool)
    ensures
        equal == (a@ == b@),
{
    proof {
        encode_utf8_decode_utf8(a@);
        encode_utf8_decode_utf8(b@);
    }
    bytes_eq(a.as_bytes(), b.as_bytes())
}

/// Whether `path` names `root` or something in the subtree below it.
pub fn path_is_under(path: &[u8], root: &[u8]) -> (under: bool)
    ensures
        under == is_under(path@, root@),
{
    if path.len() < root.len() {
        return false;
    }
    let mut i: usize = 0;
    while i < root.len()
        invariant
            root.len() <= path.len(),
            i <= root.len(),
            path@.subrange(0, i as int) == root@.subrange(0, i as int),
        decreases root.len() - i,
    {
        if path[i] != root[i] {
            return false;
        }
        i += 1;
    }
    assert(root@ =~= root@.subrange(0, i as int));
    if path.len() == root.len() {
        assert(path@ =~= path@.subrange(0, i as int));
        true
    } else {
        path[root.len()] == SEPARATOR
    }
}

/// Whether `path` falls under at least one of the text paths in `roots`.
pub fn path_is_under_any(path: &[u8], roots: &Vec<String>) -> (under: bool)
    ensures
        under == is_under_any(path@, text_paths(roots@)),
{
    let mut i: usize = 0;
    while i < roots.len()
        invariant
            i <= roots.len(),
            forall|j: int| 0 <= j < i ==> !is_under(path@, #[trigger] text_paths(roots@)[j]),
        decreases roots.len() - i,
    {
        if path_is_under(path, roots[i].as_str().as_bytes()) {
            assert(is_under(path@, text_paths(roots@)[i as int]));
            return true;
        }
        i += 1;
    }
    false
}

/// The path of `relative` below `root`.
pub fn join_path(root: &[u8], relative: &[u8]) -> (joined: Vec<u8>)
    ensures
        joined@ == join(root@, relative@),
{
    let mut joined: Vec<u8> = Vec::new();
    joined.extend_from_slice(root);
    if root.len() > 0 && root[root.len() - 1] != SEPARATOR {
        joined.push(SEPARATOR);
    }
    joined.extend_from_slice(relative);
    joined
}

/// Whatever is joined below a root falls under that root, as long as the
/// root does not end in a separator.
pub proof fn lemma_join_is_under(root: Seq<u8>, relative: Seq<u8>)
    requires
        root.len() > 0,
        root.last() != SEPARATOR,
    ensures
        is_under(join(root, relative), root),
{
    let joined = join(root, relative);
    assert(joined.subrange(0, root.len() as int) =~= root);
}

} // verus!
