use moj_archive::index::{IndexEntry, IndexTime, ObjectId, StagedFile, StagingIndex};

fn id(seed: u8) -> ObjectId {
    ObjectId { bytes: [seed; 20] }
}

fn file(seed: u8) -> StagedFile {
    StagedFile {
        ctime: IndexTime { seconds: 0, nanoseconds: 0 },
        mtime: IndexTime { seconds: 0, nanoseconds: 0 },
        dev: 0,
        ino: 0,
        mode: 0o100644,
        uid: 0,
        gid: 0,
        file_size: seed as u32,
        id: id(seed),
        flags: 0,
        flags_extended: 0,
    }
}

fn entry(path: &str, seed: u8) -> IndexEntry {
    IndexEntry { path: path.as_bytes().to_vec(), file: file(seed) }
}

#[test]
fn a_new_index_stages_nothing() {
    let index = StagingIndex::new();
    assert_eq!(index.get(b"src/A.java"), None);
    assert!(index.entries().is_empty());
}

#[test]
fn add_stages_a_file_at_its_path() {
    let mut index = StagingIndex::new();
    index.add(entry("src/A.java", 1));
    index.add(entry("libraries.txt", 2));
    assert_eq!(index.get(b"src/A.java"), Some(file(1)));
    assert_eq!(index.get(b"libraries.txt"), Some(file(2)));
    assert_eq!(index.get(b"src"), None);
}

#[test]
fn add_replaces_what_was_at_the_path() {
    let mut index = StagingIndex::new();
    index.add(entry("src/A.java", 1));
    index.add(entry("src/B.java", 2));
    index.add(entry("src/A.java", 3));
    assert_eq!(index.get(b"src/A.java"), Some(file(3)));
    assert_eq!(index.get(b"src/B.java"), Some(file(2)));
}

#[test]
fn read_tree_replaces_the_whole_index() {
    let mut index = StagingIndex::new();
    index.add(entry("old", 1));
    index.read_tree(vec![entry("src/A.java", 2), entry("libraries.txt", 3)]);
    assert_eq!(index.get(b"old"), None);
    assert_eq!(index.get(b"src/A.java"), Some(file(2)));
    assert_eq!(index.get(b"libraries.txt"), Some(file(3)));
}

#[test]
fn clear_drops_everything() {
    let mut index = StagingIndex::new();
    index.add(entry("src/A.java", 1));
    index.clear();
    assert_eq!(index.get(b"src/A.java"), None);
}

#[test]
fn remove_all_drops_whole_subtrees_and_nothing_else() {
    let mut index = StagingIndex::new();
    index.read_tree(vec![
        entry("src/A.java", 1),
        entry("src/net/B.java", 2),
        entry("srcs/C.java", 3),
        entry("libraries.txt", 4),
        entry("src", 5),
    ]);
    index.remove_all(&vec!["src".to_string()]);
    assert_eq!(index.get(b"src/A.java"), None);
    assert_eq!(index.get(b"src/net/B.java"), None);
    assert_eq!(index.get(b"src"), None);
    assert_eq!(index.get(b"srcs/C.java"), Some(file(3)));
    assert_eq!(index.get(b"libraries.txt"), Some(file(4)));
}

#[test]
fn remove_all_without_roots_keeps_everything() {
    let mut index = StagingIndex::new();
    index.read_tree(vec![entry("src/A.java", 1), entry("libraries.txt", 2)]);
    index.remove_all(&Vec::new());
    assert_eq!(index.get(b"src/A.java"), Some(file(1)));
    assert_eq!(index.get(b"libraries.txt"), Some(file(2)));
}

#[test]
fn entries_replay_to_the_staged_files() {
    let mut index = StagingIndex::new();
    index.add(entry("a", 1));
    index.add(entry("b", 2));
    index.add(entry("a", 3));
    index.remove_all(&vec!["b".to_string()]);
    let mut replayed = std::collections::BTreeMap::new();
    for staged in index.entries() {
        replayed.insert(staged.path.clone(), staged.file);
    }
    assert_eq!(replayed.len(), 1);
    assert_eq!(replayed.get(b"a".as_slice()), Some(&file(3)));
}
