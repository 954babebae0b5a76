//! The table of mapping releases: which versions have a release of
//! parameter-name mappings of their own, and which release every other
//! version borrows.

use vstd::prelude::*;
use linked_hash_map::LinkedHashMap;
use crate::path::str_eq;
use crate::version::Version;

verus! {

/// `linked_hash_map::LinkedHashMap`, a hash map that hands out its entries
/// in the order of their insertion. Nothing is known of what a map holds
/// but through [`linked_entries`].
#[verifier::external_type_specification]
#[verifier::external_body]
#[verifier::reject_recursive_types(K)]
#[verifier::reject_recursive_types(V)]
#[verifier::reject_recursive_types(S)]
pub struct ExLinkedHashMap<K, V, S>(LinkedHashMap<K, V, S>);

/// The entries of a linked hash map of texts, each a key and its value, in
/// the order in which the map hands them out: the order of insertion.
pub uninterp spec fn linked_entries(map: LinkedHashMap<&'static str, &'static str>) -> Seq<
    (Seq<char>, Seq<char>),
>;

/// `entries` without the entries under `key`.
pub open spec fn without_key(entries: Seq<(Seq<char>, Seq<char>)>, key: Seq<char>) -> Seq<
    (Seq<char>, Seq<char>),
> {
    entries.filter(|entry: (Seq<char>, Seq<char>)| entry.0 != key)
}

/// `LinkedHashMap::new`: a map without entries.
#[verifier::external_body]
fn linked_new() -> (map: LinkedHashMap<&'static str, &'static str>)
    ensures
        linked_entries(map) == Seq::<(Seq<char>, Seq<char>)>::empty(),
{
    LinkedHashMap::new()
}

/// `LinkedHashMap::insert`: the entry goes to the end of the order, and an
/// entry that the map held under the same key is gone.
#[verifier::external_body]
fn linked_insert(map: &mut LinkedHashMap<&'static str, &'static str>, key: &'static str, value: &'static str)
    ensures
        linked_entries(*final(map)) == without_key(linked_entries(*old(map)), key@).push(
            (key@, value@),
        ),
{
    map.insert(key, value);
}

/// `LinkedHashMap::keys`: the keys of the entries, in the order of the
/// entries.
#[verifier::external_body]
fn linked_keys(map: &LinkedHashMap<&'static str, &'static str>) -> (keys: Vec<&'static str>)
    ensures
        keys@.len() == linked_entries(*map).len(),
        forall|i: int| 0 <= i < keys@.len() ==> (#[trigger] keys@[i])@ == linked_entries(*map)[i].0,
{
    map.keys().copied().collect()
}

/// `LinkedHashMap::get`: the value of an entry under `key`, and nothing
/// where the map holds no entry under `key`.
#[verifier::external_body]
fn linked_get(map: &LinkedHashMap<&'static str, &'static str>, key: &str) -> (value: Option<
    &'static str,
>)
    ensures
        match value {
            Some(found) => linked_entries(*map).contains((key@, found@)),
            None => forall|i: int|
                0 <= i < linked_entries(*map).len() ==> (#[trigger] linked_entries(*map)[i]).0 != key@,
        },
{
    map.get(key).copied()
}

/// The mapping releases: each entry names a version and the mapping release
/// made for it, oldest version first.
pub open spec fn parchment_table() -> Seq<(Seq<char>, Seq<char>)> {
    seq![
        ("1.16.5"@, "2022.03.06"@),
        ("1.17.1"@, "2021.12.12"@),
        ("1.18.2"@, "2022.11.06"@),
        ("1.19.2"@, "2022.11.27"@),
        ("1.19.3"@, "2023.06.25"@),
        ("1.19.4"@, "2023.06.26"@),
        ("1.20.1"@, "2023.09.03"@),
        ("1.20.2"@, "2023.12.10"@),
        ("1.20.3"@, "2023.12.31"@),
        ("1.20.4"@, "2024.04.14"@),
        ("1.20.6"@, "2024.06.16"@),
        ("1.21"@, "2024.07.28"@),
    ]
}

/// The versions that have a mapping release of their own, oldest first.
pub open spec fn parchment_keys() -> Seq<Seq<char>> {
    Seq::new(parchment_table().len(), |i: int| parchment_table()[i].0)
}

/// No version occurs twice in the table.
pub proof fn lemma_table_keys_distinct()
    ensures
        parchment_table().len() == 12,
        forall|i: int, j: int|
            0 <= i < j < 12 ==> (#[trigger] parchment_table()[i]).0 != (#[trigger] parchment_table()[j]).0,
{
    reveal_strlit("1.16.5");
    reveal_strlit("1.17.1");
    reveal_strlit("1.18.2");
    reveal_strlit("1.19.2");
    reveal_strlit("1.19.3");
    reveal_strlit("1.19.4");
    reveal_strlit("1.20.1");
    reveal_strlit("1.20.2");
    reveal_strlit("1.20.3");
    reveal_strlit("1.20.4");
    reveal_strlit("1.20.6");
    reveal_strlit("1.21");
    let table = parchment_table();
    assert forall|i: int, j: int| 0 <= i < j < 12 implies (#[trigger] table[i]).0 != (
    #[trigger] table[j]).0 by {
        let a = table[i].0;
        let b = table[j].0;
        if a.len() == b.len() {
            assert(a[3] != b[3] || a[5] != b[5]);
        }
    }
}

/// Taking out a key that no entry has leaves the entries as they are.
pub proof fn lemma_without_absent_key(entries: Seq<(Seq<char>, Seq<char>)>, key: Seq<char>)
    requires
        forall|i: int| 0 <= i < entries.len() ==> (#[trigger] entries[i]).0 != key,
    ensures
        without_key(entries, key) == entries,
    decreases entries.len(),
{
    reveal(Seq::filter);
    if entries.len() > 0 {
        lemma_without_absent_key(entries.drop_last(), key);
    }
}

/// Inserting the table's next entry into a map that holds the entries
/// before it yields the entries up to and including it.
proof fn lemma_insert_next(count: int)
    requires
        0 <= count < 12,
    ensures
        without_key(parchment_table().take(count), parchment_table()[count].0).push(
            parchment_table()[count],
        ) == parchment_table().take(count + 1),
{
    lemma_table_keys_distinct();
    let table = parchment_table();
    lemma_without_absent_key(table.take(count), table[count].0);
}

/// The table of mapping releases.
pub fn parchment_versions() -> (map: LinkedHashMap<&'static str, &'static str>)
    ensures
        linked_entries(map) == parchment_table(),
{
    let ghost table = parchment_table();
    let mut map = linked_new();
    assert(linked_entries(map) =~= table.take(0));
    proof { lemma_insert_next(0); }
    linked_insert(&mut map, "1.16.5", "2022.03.06");
    proof { lemma_insert_next(1); }
    linked_insert(&mut map, "1.17.1", "2021.12.12");
    proof { lemma_insert_next(2); }
    linked_insert(&mut map, "1.18.2", "2022.11.06");
    proof { lemma_insert_next(3); }
    linked_insert(&mut map, "1.19.2", "2022.11.27");
    proof { lemma_insert_next(4); }
    linked_insert(&mut map, "1.19.3", "2023.06.25");
    proof { lemma_insert_next(5); }
    linked_insert(&mut map, "1.19.4", "2023.06.26");
    proof { lemma_insert_next(6); }
    linked_insert(&mut map, "1.20.1", "2023.09.03");
    proof { lemma_insert_next(7); }
    linked_insert(&mut map, "1.20.2", "2023.12.10");
    proof { lemma_insert_next(8); }
    linked_insert(&mut map, "1.20.3", "2023.12.31");
    proof { lemma_insert_next(9); }
    linked_insert(&mut map, "1.20.4", "2024.04.14");
    proof { lemma_insert_next(10); }
    linked_insert(&mut map, "1.20.6", "2024.06.16");
    proof { lemma_insert_next(11); }
    linked_insert(&mut map, "1.21", "2024.07.28");
    map
}

/// The mapping release made for `version`; nothing where the table does not
/// list `version`.
pub open spec fn spec_parchment_version(version: Seq<char>) -> Option<Seq<char>> {
    if exists|i: int| 0 <= i < parchment_table().len() && (#[trigger] parchment_table()[i]).0 == version {
        let i = choose|i: int|
            0 <= i < parchment_table().len() && (#[trigger] parchment_table()[i]).0 == version;
        Some(parchment_table()[i].1)
    } else {
        None
    }
}

/// The mapping release made for `parchment_mc_version`.
pub fn parchment_version(parchment_mc_version: &str) -> (release: Option<&'static str>)
    ensures
        match release {
            Some(found) => spec_parchment_version(parchment_mc_version@) == Some(found@),
            None => spec_parchment_version(parchment_mc_version@) is None,
        },
{
    let map = parchment_versions();
    let release = linked_get(&map, parchment_mc_version);
    proof {
        lemma_table_keys_distinct();
        let table = parchment_table();
        if let Some(found) = release {
            let at = choose|at: int| 0 <= at < table.len() && table[at] == (parchment_mc_version@, found@);
            let chosen = choose|i: int|
                0 <= i < table.len() && (#[trigger] table[i]).0 == parchment_mc_version@;
            assert(chosen == at);
        }
    }
    release
}

/// The walk over the versions, oldest first, that gives each version its
/// mapping version: the latest version of the table that has been met so
/// far. The table's versions are expected in the table's order; the walk
/// also counts how many of them it has met.
pub open spec fn parchment_walk(keys: Seq<Seq<char>>, ids: Seq<Seq<char>>) -> (
    nat,
    Seq<Option<Seq<char>>>,
)
    decreases ids.len(),
{
    if ids.len() == 0 {
        (0, Seq::empty())
    } else {
        let (met, indexed) = parchment_walk(keys, ids.drop_last());
        if met < keys.len() && keys[met as int] == ids.last() {
            (met + 1, indexed.push(Some(keys[met as int])))
        } else {
            (
                met,
                indexed.push(
                    if met == 0 {
                        None
                    } else {
                        Some(keys[met - 1])
                    },
                ),
            )
        }
    }
}

/// The names of `versions`, in the same order.
pub open spec fn ids_of(versions: Seq<Version>) -> Seq<Seq<char>> {
    Seq::new(versions.len(), |i: int| versions[i].id@)
}

/// The texts of `indexed` as character sequences.
pub open spec fn indexed_view(indexed: Seq<Option<&'static str>>) -> Seq<Option<Seq<char>>> {
    Seq::new(
        indexed.len(),
        |i: int|
            match indexed[i] {
                Some(text) => Some(text@),
                None => None,
            },
    )
}

/// Gives each version, in the order of `all_versions_sorted_by_date`, the
/// mapping version that serves it: the version itself where the table lists
/// it, else the latest listed version before it, and none for versions that
/// are older than all of the table.
///
/// Fails where the walk does not meet every version of the table, in the
/// table's order; the error is the first version of the table that was not
/// met.
pub fn index_parchment_mc_versions(all_versions_sorted_by_date: &[Version]) -> (index: Result<
    Vec<Option<&'static str>>,
    &'static str,
>)
    ensures
        ({
            let (met, indexed) = parchment_walk(parchment_keys(), ids_of(all_versions_sorted_by_date@));
            match index {
                Ok(found) => met == parchment_keys().len() && indexed_view(found@) == indexed,
                Err(missing) => met < parchment_keys().len() && missing@ == parchment_keys()[met as int],
            }
        }),
{
    let map = parchment_versions();
    let keys = linked_keys(&map);
    let ghost table_keys = parchment_keys();
    let ghost ids = ids_of(all_versions_sorted_by_date@);
    let mut indexed: Vec<Option<&'static str>> = Vec::new();
    let mut met: usize = 0;
    let mut i: usize = 0;
    while i < all_versions_sorted_by_date.len()
        invariant
            i <= all_versions_sorted_by_date.len(),
            table_keys == parchment_keys(),
            ids == ids_of(all_versions_sorted_by_date@),
            keys@.len() == table_keys.len(),
            forall|k: int| 0 <= k < keys@.len() ==> (#[trigger] keys@[k])@ == table_keys[k],
            met <= keys@.len(),
            parchment_walk(table_keys, ids.take(i as int)) == (met as nat, indexed_view(indexed@)),
        decreases all_versions_sorted_by_date.len() - i,
    {
        let ghost before = indexed_view(indexed@);
        proof {
            assert(ids.take(i + 1).drop_last() =~= ids.take(i as int));
        }
        if met < keys.len() && str_eq(all_versions_sorted_by_date[i].id.as_str(), keys[met]) {
            indexed.push(Some(keys[met]));
            met += 1;
        } else {
            let current = if met == 0 {
                None
            } else {
                Some(keys[met - 1])
            };
            indexed.push(current);
            assert(indexed_view(indexed@) =~= before.push(
                if met == 0 {
                    None
                } else {
                    Some(table_keys[met - 1])
                },
            ));
        }
        i += 1;
    }
    assert(ids.take(i as int) =~= ids);
    if met < keys.len() {
        Err(keys[met])
    } else {
        Ok(indexed)
    }
}

} // verus!
