//! Commit metadata: the message of an archive commit, and the ledger that
//! travels in its body as a flat TOML table of integers.

use vstd::prelude::*;
use vstd::string::StringExecFns;
use vstd::string::StrSliceExecFns;
use crate::index::ObjectId;
use crate::ledger::SavedInfo;
use crate::path::str_eq;

verus! {

/// The top-level entries of the TOML document `text`, each with its key and,
/// where its value is an integer, that integer; `None` where `text` is not a
/// TOML document. This is what the `toml` crate reads from `text`.
pub uninterp spec fn toml_entries(text: Seq<char>) -> Option<Seq<(Seq<char>, Option<i64>)>>;

/// The TOML document that the `toml` crate writes for a table holding
/// `entries`, each an integer under its key; `None` where it writes none.
pub uninterp spec fn toml_document(entries: Seq<(Seq<char>, i64)>) -> Option<Seq<char>>;

/// The entries of a parsed table with their keys as character sequences.
pub open spec fn parsed_view(entries: Seq<(String, Option<i64>)>) -> Seq<(Seq<char>, Option<i64>)> {
    Seq::new(entries.len(), |i: int| (entries[i].0@, entries[i].1))
}

/// The entries of a table to write with their keys as character sequences.
pub open spec fn written_view(entries: Seq<(String, i64)>) -> Seq<(Seq<char>, i64)> {
    Seq::new(entries.len(), |i: int| (entries[i].0@, entries[i].1))
}

/// Parses `text` with `toml::from_str` into a `toml::Table` and hands out
/// each top-level entry as its key and `toml::Value::as_integer` of its
/// value. Nothing is claimed of the result but that it is a function of
/// `text`, named [`toml_entries`].
#[verifier::external_body]
fn parse_table(text: &str) -> (entries: Option<Vec<(String, Option<i64>)>>)
    ensures
        match entries {
            Some(found) => toml_entries(text@) == Some(parsed_view(found@)),
            None => toml_entries(text@) is None,
        },
{
    match toml::from_str::<toml::Table>(text) {
        Ok(table) => Some(
            table.iter().map(|(key, value)| (key.clone(), value.as_integer())).collect(),
        ),
        Err(_) => None,
    }
}

/// Collects `entries` into a `toml::Table` of integer values and writes it
/// with `toml::to_string`. Nothing is claimed of the result but that it is a
/// function of `entries`, named [`toml_document`].
#[verifier::external_body]
fn write_table(entries: &Vec<(String, i64)>) -> (text: Option<String>)
    ensures
        match text {
            Some(written) => toml_document(written_view(entries@)) == Some(written@),
            None => toml_document(written_view(entries@)) is None,
        },
{
    let table: toml::Table =
        entries.iter().map(|(key, value)| (key.clone(), toml::Value::Integer(*value))).collect();
    toml::to_string(&table).ok()
}

/// The value of the first entry under `key`: `None` where there is no such
/// entry, `Some(None)` where its value is not an integer.
pub open spec fn lookup(entries: Seq<(Seq<char>, Option<i64>)>, key: Seq<char>) -> Option<
    Option<i64>,
>
    decreases entries.len(),
{
    if entries.len() == 0 {
        None
    } else if entries[0].0 == key {
        Some(entries[0].1)
    } else {
        lookup(entries.skip(1), key)
    }
}

/// The key under which the ledger records the decompiled classes.
pub open spec fn classes_key() -> Seq<char> {
    "decompiled_classes_version"@
}

/// The key that older ledgers used for the decompiled classes.
pub open spec fn classes_alias() -> Seq<char> {
    "output_version"@
}

/// The key under which the ledger records the library list.
pub open spec fn libraries_key() -> Seq<char> {
    "libraries_output_version"@
}

/// The version that a looked-up value records: 0 where the key is absent,
/// the integer where it is one that fits 32 bits without sign, and nothing
/// where the value is malformed.
pub open spec fn recorded_version(value: Option<Option<i64>>) -> Option<u32> {
    match value {
        None => Some(0u32),
        Some(Some(number)) => if 0 <= number <= u32::MAX {
            Some(number as u32)
        } else {
            None
        },
        Some(None) => None,
    }
}

/// The ledger that a table records, or nothing where the table is
/// malformed: a ledger key holds something other than a version, or the
/// decompiled classes are recorded under both of their keys. Keys that the
/// ledger does not know are passed over.
pub open spec fn ledger_of_entries(entries: Seq<(Seq<char>, Option<i64>)>) -> Option<SavedInfo> {
    let classes = lookup(entries, classes_key());
    let alias = lookup(entries, classes_alias());
    let libraries = lookup(entries, libraries_key());
    if classes is Some && alias is Some {
        None
    } else {
        match (
            recorded_version(if classes is Some { classes } else { alias }),
            recorded_version(libraries),
        ) {
            (Some(decompiled_classes_version), Some(libraries_output_version)) => Some(
                SavedInfo { decompiled_classes_version, libraries_output_version },
            ),
            _ => None,
        }
    }
}

/// The ledger that the body of a commit message records. A body that is not
/// a TOML document, or whose table is malformed, records nothing: every
/// kind reads as version 0.
pub open spec fn ledger_of_body(body: Seq<char>) -> SavedInfo {
    match toml_entries(body) {
        Some(entries) => match ledger_of_entries(entries) {
            Some(info) => info,
            None => SavedInfo::zero(),
        },
        None => SavedInfo::zero(),
    }
}

/// The table that records `info`.
pub open spec fn entries_of_ledger(info: SavedInfo) -> Seq<(Seq<char>, i64)> {
    seq![
        (classes_key(), info.decompiled_classes_version as i64),
        (libraries_key(), info.libraries_output_version as i64),
    ]
}

/// A blank line starts at position `at` of `text`: two line feeds in a row.
pub open spec fn blank_line_at(text: Seq<char>, at: int) -> bool {
    0 <= at && at + 1 < text.len() && text[at] == '\n' && text[at + 1] == '\n'
}

/// `text` holds a blank line.
pub open spec fn has_blank_line(text: Seq<char>) -> bool {
    exists|at: int| blank_line_at(text, at)
}

/// `at` is where the first blank line of `text` starts.
pub open spec fn first_blank_line_at(text: Seq<char>, at: int) -> bool {
    blank_line_at(text, at) && forall|before: int| 0 <= before < at ==> !blank_line_at(text, before)
}

/// Where the first blank line of `text` starts.
pub open spec fn first_blank_line(text: Seq<char>) -> int {
    choose|at: int| first_blank_line_at(text, at)
}

/// The summary of a commit message: what stands before its first blank
/// line, or the whole message where it has none.
pub open spec fn summary_of(message: Seq<char>) -> Seq<char> {
    if has_blank_line(message) {
        message.take(first_blank_line(message))
    } else {
        message
    }
}

/// The body of a commit message: what follows its first blank line.
pub open spec fn body_of(message: Seq<char>) -> Option<Seq<char>> {
    if has_blank_line(message) {
        Some(message.skip(first_blank_line(message) + 2))
    } else {
        None
    }
}

/// The ledger that a commit message carries: that of its body, and the
/// all-zero ledger where the message has no body.
pub open spec fn ledger_of_message(message: Seq<char>) -> SavedInfo {
    match body_of(message) {
        Some(body) => ledger_of_body(body),
        None => SavedInfo::zero(),
    }
}

/// The message of the commit of version `version_id` whose body is `body`:
/// a summary line, a blank line, the body.
pub open spec fn message_text(version_id: Seq<char>, body: Seq<char>) -> Seq<char> {
    "Version "@ + version_id + "\n\n"@ + body
}

/// Only one position can be the start of the first blank line.
pub proof fn lemma_first_blank_line_unique(text: Seq<char>, at: int)
    requires
        first_blank_line_at(text, at),
    ensures
        has_blank_line(text),
        first_blank_line(text) == at,
{
    let chosen = first_blank_line(text);
    assert(first_blank_line_at(text, chosen));
    if chosen < at {
        assert(!blank_line_at(text, chosen));
    }
    if at < chosen {
        assert(!blank_line_at(text, at));
    }
}

/// Looks up the value of the first entry under `key`.
fn find_entry(entries: &Vec<(String, Option<i64>)>, key: &str) -> (value: Option<Option<i64>>)
    ensures
        value == lookup(parsed_view(entries@), key@),
{
    let ghost all = parsed_view(entries@);
    assert(all.skip(0) =~= all);
    let mut i: usize = 0;
    while i < entries.len()
        invariant
            i <= entries.len(),
            all == parsed_view(entries@),
            lookup(all, key@) == lookup(all.skip(i as int), key@),
        decreases entries.len() - i,
    {
        if str_eq(entries[i].0.as_str(), key) {
            return Some(entries[i].1);
        }
        assert(all.skip(i as int).skip(1) =~= all.skip(i + 1));
        i += 1;
    }
    None
}

/// Reads a looked-up value as a version.
fn version_of_value(value: Option<Option<i64>>) -> (version: Option<u32>)
    ensures
        version == recorded_version(value),
{
    match value {
        None => Some(0),
        Some(Some(number)) => if 0 <= number && number <= 0xffff_ffff {
            Some(number as u32)
        } else {
            None
        },
        Some(None) => None,
    }
}

/// Reads a ledger from the top-level entries of a parsed table. Each entry
/// is a key and, where the value under it is an integer, that integer.
pub fn ledger_from_entries(entries: &Vec<(String, Option<i64>)>) -> (info: Option<SavedInfo>)
    ensures
        info == ledger_of_entries(parsed_view(entries@)),
{
    let classes = find_entry(entries, "decompiled_classes_version");
    let alias = find_entry(entries, "output_version");
    let libraries = find_entry(entries, "libraries_output_version");
    if classes.is_some() && alias.is_some() {
        return None;
    }
    let classes_version = version_of_value(if classes.is_some() { classes } else { alias });
    let libraries_version = version_of_value(libraries);
    match (classes_version, libraries_version) {
        (Some(decompiled_classes_version), Some(libraries_output_version)) => Some(
            SavedInfo { decompiled_classes_version, libraries_output_version },
        ),
        _ => None,
    }
}

impl SavedInfo {
    /// Reads the ledger that the body of a commit message records. Every
    /// kind reads as version 0 where the body is malformed.
    pub fn from_toml(body: &str) -> (info: SavedInfo)
        ensures
            info == ledger_of_body(body@),
    {
        match parse_table(body) {
            Some(entries) => match ledger_from_entries(&entries) {
                Some(info) => info,
                None => SavedInfo::default(),
            },
            None => SavedInfo::default(),
        }
    }

    /// Writes the ledger as the body of a commit message: one key per kind,
    /// each with the recorded version. `None` where it cannot be written.
    pub fn to_toml(&self) -> (body: Option<String>)
        ensures
            match body {
                Some(text) => toml_document(entries_of_ledger(*self)) == Some(text@),
                None => toml_document(entries_of_ledger(*self)) is None,
            },
    {
        let mut entries: Vec<(String, i64)> = Vec::new();
        entries.push(
            (String::from_str("decompiled_classes_version"), self.decompiled_classes_version as i64),
        );
        entries.push(
            (String::from_str("libraries_output_version"), self.libraries_output_version as i64),
        );
        assert(written_view(entries@) =~= entries_of_ledger(*self));
        write_table(&entries)
    }
}

/// Puts the message of a version's commit together.
pub fn commit_message(version_id: &str, body: &str) -> (message: String)
    ensures
        message@ == message_text(version_id@, body@),
{
    let mut message = String::from_str("Version ");
    message.append(version_id);
    message.append("\n\n");
    message.append(body);
    message
}

/// Splits a commit message at its first blank line into summary and body.
/// A message without a blank line has no body.
pub fn split_message<'a>(message: &'a str) -> (parts: Option<(&'a str, &'a str)>)
    ensures
        match parts {
            Some((summary, body)) => summary@ == summary_of(message@) && Some(body@) == body_of(
                message@,
            ),
            None => body_of(message@) is None,
        },
{
    let ghost text = message@;
    let length = message.unicode_len();
    let mut found: Option<usize> = None;
    let mut after_line_feed = false;
    let mut position: usize = 0;
    for c in it: message.chars()
        invariant
            it.seq() == text,
            text.len() == length,
            position == it.index(),
            after_line_feed == (position > 0 && text[position - 1] == '\n'),
            match found {
                Some(at) => first_blank_line_at(text, at as int),
                None => forall|before: int| 0 <= before < position - 1 ==> !blank_line_at(text, before),
            },
    {
        if found.is_none() && after_line_feed && c == '\n' {
            found = Some(position - 1);
        }
        after_line_feed = c == '\n';
        position += 1;
    }
    match found {
        Some(at) => {
            proof {
                lemma_first_blank_line_unique(text, at as int);
            }
            Some((message.substring_char(0, at), message.substring_char(at + 2, length)))
        },
        None => {
            None
        },
    }
}

/// A commit that a tag leads to, as far as a lookup reads it.
#[derive(Debug, Clone, PartialEq, Eq)]
pub struct TaggedCommit {
    /// The tree of the commit.
    pub tree: ObjectId,
    /// The whole commit message.
    pub message: String,
}

/// The archived state of a version: the tree of the commit that the
/// version's tag leads to, and the ledger in that commit's message.
/// `tagged` is what the store holds under the version's tag, if anything.
pub fn find_version_tree_and_info(tagged: Option<&TaggedCommit>) -> (found: Option<(ObjectId, SavedInfo)>)
    ensures
        found == match tagged {
            Some(commit) => Some((commit.tree, ledger_of_message(commit.message@))),
            None => None,
        },
{
    match tagged {
        Some(commit) => {
            let info = match split_message(commit.message.as_str()) {
                Some((_, body)) => SavedInfo::from_toml(body),
                None => SavedInfo::default(),
            };
            Some((commit.tree, info))
        },
        None => None,
    }
}

/// The body of a commit message can be read back whatever the summary
/// says: as long as the version's name holds no line feed, the message
/// splits into its summary line and exactly the body it was made with.
pub proof fn lemma_message_splits(version_id: Seq<char>, body: Seq<char>)
    requires
        !version_id.contains('\n'),
    ensures
        summary_of(message_text(version_id, body)) == "Version "@ + version_id,
        body_of(message_text(version_id, body)) == Some(body),
        ledger_of_message(message_text(version_id, body)) == ledger_of_body(body),
{
    reveal_strlit("Version ");
    reveal_strlit("\n\n");
    let message = message_text(version_id, body);
    let summary = "Version "@ + version_id;
    let at = summary.len() as int;
    assert(message[at] == '\n');
    assert(message[at + 1] == '\n');
    assert forall|before: int| 0 <= before < at implies !blank_line_at(message, before) by {
        if before >= 8 {
            assert(message[before] == version_id[before - 8]);
            assert(version_id.contains(version_id[before - 8]));
        }
    }
    lemma_first_blank_line_unique(message, at);
    assert(message.take(at) =~= summary);
    assert(message.skip(at + 2) =~= body);
}

} // verus!
