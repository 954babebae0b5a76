//! The versions that a run archives: which of the manifest's versions are
//! selected, and in which order they are processed.

use vstd::prelude::*;
use vstd::string::StringExecFns;
use crate::error::MojError;
use crate::path::str_eq;

verus! {

/// One version, as the version manifest lists it.
#[derive(Debug, Clone, PartialEq, Eq)]
pub struct Version {
    /// The version's name, which is also the name of its tag.
    pub id: String,
    /// When the version was released, in seconds since the Unix epoch.
    pub release_time: i64,
    /// The kind of release: `release`, `snapshot` and so on.
    pub type_: String,
}

/// The version manifest.
#[derive(Debug, Clone, PartialEq, Eq)]
pub struct VersionManifest {
    pub versions: Vec<Version>,
}

/// Which versions a run is to cover.
#[derive(Debug, Clone, PartialEq, Eq)]
pub struct Config {
    /// The name of the oldest version to cover.
    pub min_version: String,
    /// The name of the newest version to cover.
    pub max_version: String,
    /// Whether snapshots are covered too.
    pub include_snapshots: bool,
}

/// A version as a mathematical value.
pub struct VersionView {
    pub id: Seq<char>,
    pub release_time: i64,
    pub type_: Seq<char>,
}

impl View for Version {
    type V = VersionView;

    open spec fn view(&self) -> VersionView {
        VersionView { id: self.id@, release_time: self.release_time, type_: self.type_@ }
    }
}

impl Version {
    /// A copy of the version.
    pub fn duplicate(&self) -> (copy: Version)
        ensures
            copy@ == self@,
    {
        Version { id: self.id.clone(), release_time: self.release_time, type_: self.type_.clone() }
    }
}

/// The views of `versions`, in the same order.
pub open spec fn views(versions: Seq<Version>) -> Seq<VersionView> {
    Seq::new(versions.len(), |i: int| versions[i]@)
}

/// Which of the two ends of the configured range the manifest lacks.
#[derive(Debug, Clone, Copy, PartialEq, Eq, Structural)]
pub enum MissingVersion {
    Minimum,
    Maximum,
    Both,
}

/// The month, from 1 to 12, of the UTC calendar date on which the instant
/// `seconds` after the Unix epoch falls, as `chrono` computes it; `None`
/// where `chrono` cannot represent the instant.
pub uninterp spec fn utc_month_of(seconds: i64) -> Option<u32>;

/// The day of the month, from 1, of the UTC calendar date on which the
/// instant `seconds` after the Unix epoch falls, as `chrono` computes it;
/// `None` where `chrono` cannot represent the instant.
pub uninterp spec fn utc_day_of(seconds: i64) -> Option<u32>;

/// Makes a `chrono::DateTime<Utc>` of `seconds` with
/// `DateTime::from_timestamp` and asks `Datelike::month` of it. Nothing is
/// claimed of the result but that it is a function of `seconds`, named
/// [`utc_month_of`].
#[verifier::external_body]
fn utc_month(seconds: i64) -> (month: Option<u32>)
    ensures
        month == utc_month_of(seconds),
{
    match chrono::DateTime::from_timestamp(seconds, 0) {
        Some(instant) => Some(chrono::Datelike::month(&instant)),
        None => None,
    }
}

/// Makes a `chrono::DateTime<Utc>` of `seconds` with
/// `DateTime::from_timestamp` and asks `Datelike::day` of it. Nothing is
/// claimed of the result but that it is a function of `seconds`, named
/// [`utc_day_of`].
#[verifier::external_body]
fn utc_day(seconds: i64) -> (day: Option<u32>)
    ensures
        day == utc_day_of(seconds),
{
    match chrono::DateTime::from_timestamp(seconds, 0) {
        Some(instant) => Some(chrono::Datelike::day(&instant)),
        None => None,
    }
}

/// The instant `seconds` falls on the first of April, UTC.
pub open spec fn april_fools(seconds: i64) -> bool {
    utc_month_of(seconds) == Some(4u32) && utc_day_of(seconds) == Some(1u32)
}

/// Whether a calendar date, given by month and day of the month, is the
/// first of April.
pub fn is_first_of_april(month: Option<u32>, day: Option<u32>) -> (first: bool)
    ensures
        first == (month == Some(4u32) && day == Some(1u32)),
{
    match (month, day) {
        (Some(month), Some(day)) => month == 4 && day == 1,
        _ => false,
    }
}

/// Whether `version` was released on the first of April, UTC.
pub fn is_april_fools(version: &Version) -> (fools: bool)
    ensures
        fools == april_fools(version.release_time),
{
    is_first_of_april(utc_month(version.release_time), utc_day(version.release_time))
}

/// The release times of the versions named `min` and `max`, as far as
/// `versions` lists them. Where a name is listed more than once, its last
/// listing counts. A version named both `min` and `max` counts as `min`
/// only.
pub open spec fn release_times(versions: Seq<Version>, min: Seq<char>, max: Seq<char>) -> (
    Option<i64>,
    Option<i64>,
)
    decreases versions.len(),
{
    if versions.len() == 0 {
        (None, None)
    } else {
        let found = release_times(versions.drop_last(), min, max);
        let version = versions.last();
        if version.id@ == min {
            (Some(version.release_time), found.1)
        } else if version.id@ == max {
            (found.0, Some(version.release_time))
        } else {
            found
        }
    }
}

/// Looks up the release times of the two ends of the configured range.
pub fn extract_release_times(versions: &Vec<Version>, config: &Config) -> (found: (
    Option<i64>,
    Option<i64>,
))
    ensures
        found == release_times(versions@, config.min_version@, config.max_version@),
{
    let mut found: (Option<i64>, Option<i64>) = (None, None);
    let mut i: usize = 0;
    while i < versions.len()
        invariant
            i <= versions.len(),
            found == release_times(
                versions@.subrange(0, i as int),
                config.min_version@,
                config.max_version@,
            ),
        decreases versions.len() - i,
    {
        assert(versions@.subrange(0, i + 1).drop_last() =~= versions@.subrange(0, i as int));
        let version = &versions[i];
        if str_eq(version.id.as_str(), config.min_version.as_str()) {
            found = (Some(version.release_time), found.1);
        } else if str_eq(version.id.as_str(), config.max_version.as_str()) {
            found = (found.0, Some(version.release_time));
        }
        i += 1;
    }
    assert(versions@.subrange(0, i as int) =~= versions@);
    found
}

/// The range that two looked-up release times span, or the end that is
/// missing.
pub open spec fn verified_times(extracted: (Option<i64>, Option<i64>)) -> Result<
    (i64, i64),
    MissingVersion,
> {
    match extracted {
        (Some(min), Some(max)) => Ok((min, max)),
        (None, Some(_)) => Err(MissingVersion::Minimum),
        (Some(_), None) => Err(MissingVersion::Maximum),
        (None, None) => Err(MissingVersion::Both),
    }
}

/// Checks that both ends of the configured range were found, and says
/// which end is missing where they were not.
pub fn verify_release_times(extracted_release_times: (Option<i64>, Option<i64>)) -> (times: Result<
    (i64, i64),
    MissingVersion,
>)
    ensures
        times == verified_times(extracted_release_times),
{
    match extracted_release_times {
        (Some(min), Some(max)) => Ok((min, max)),
        (None, Some(_)) => Err(MissingVersion::Minimum),
        (Some(_), None) => Err(MissingVersion::Maximum),
        (None, None) => Err(MissingVersion::Both),
    }
}

impl MissingVersion {
    /// The error that a missing end of the range is reported as.
    pub fn error(&self) -> (error: MojError)
        ensures
            error == MojError::UserError,
    {
        MojError::UserError
    }

    /// What to tell the user, as a character sequence.
    pub open spec fn spec_message(self, min: Seq<char>, max: Seq<char>) -> Seq<char> {
        match self {
            MissingVersion::Minimum => "Minimum version "@ + min + " not found in version manifest"@,
            MissingVersion::Maximum => "Maximum version "@ + max + " not found in version manifest"@,
            MissingVersion::Both => "Neither minimum version "@ + min + " nor maximum version "@ + max
                + " found in version manifest"@,
        }
    }

    /// What to tell the user.
    pub fn message(&self, config: &Config) -> (text: String)
        ensures
            text@ == self.spec_message(config.min_version@, config.max_version@),
    {
        match self {
            MissingVersion::Minimum => String::from_str("Minimum version ").concat(
                config.min_version.as_str(),
            ).concat(" not found in version manifest"),
            MissingVersion::Maximum => String::from_str("Maximum version ").concat(
                config.max_version.as_str(),
            ).concat(" not found in version manifest"),
            MissingVersion::Both => String::from_str("Neither minimum version ").concat(
                config.min_version.as_str(),
            ).concat(" nor maximum version ").concat(config.max_version.as_str()).concat(
                " found in version manifest",
            ),
        }
    }
}

/// A run covers `version`: it was not released on the first of April, its
/// release time lies between `min` and `max`, both included, and it is no
/// snapshot unless snapshots are covered.
pub open spec fn covered(version: VersionView, min: i64, max: i64, include_snapshots: bool) -> bool {
    &&& !april_fools(version.release_time)
    &&& min <= version.release_time <= max
    &&& (include_snapshots || version.type_ != "snapshot"@)
}

/// The versions that a run covers, in the order of `versions`.
pub fn select_versions(versions: &Vec<Version>, min: i64, max: i64, include_snapshots: bool) -> (selected:
    Vec<Version>)
    ensures
        views(selected@) == views(versions@).filter(
            |version: VersionView| covered(version, min, max, include_snapshots),
        ),
{
    let ghost keep = |version: VersionView| covered(version, min, max, include_snapshots);
    let ghost all = views(versions@);
    let mut selected: Vec<Version> = Vec::new();
    let mut i: usize = 0;
    proof {
        reveal(Seq::filter);
    }
    while i < versions.len()
        invariant
            i <= versions.len(),
            all == views(versions@),
            keep == |version: VersionView| covered(version, min, max, include_snapshots),
            views(selected@) == all.take(i as int).filter(keep),
        decreases versions.len() - i,
    {
        let version = &versions[i];
        proof {
            reveal(Seq::filter);
            assert(all.take(i + 1).drop_last() =~= all.take(i as int));
        }
        let is_snapshot = str_eq(version.type_.as_str(), "snapshot");
        let is_within_range = version.release_time >= min && version.release_time <= max;
        if !is_april_fools(version) && is_within_range && (include_snapshots || !is_snapshot) {
            selected.push(version.duplicate());
        }
        i += 1;
    }
    assert(all.take(i as int) =~= all);
    selected
}

/// `after` is `before` sorted by release time, oldest first, with versions
/// of the same release time in the order they had; `order` tells for each
/// place of `after` the place in `before` that its version comes from.
pub open spec fn sorted_stably(before: Seq<Version>, after: Seq<Version>, order: Seq<int>) -> bool {
    &&& after.len() == before.len()
    &&& order.len() == before.len()
    &&& order.no_duplicates()
    &&& forall|place: int|
        0 <= place < order.len() ==> 0 <= #[trigger] order[place] < before.len() && after[place]
            == before[order[place]]
    &&& forall|first: int, second: int|
        0 <= first < second < order.len() ==> {
            ||| before[#[trigger] order[first]].release_time < before[#[trigger] order[second]].release_time
            ||| (before[order[first]].release_time == before[order[second]].release_time
                && order[first] < order[second])
        }
}

/// Sorts `versions` with the standard library's `sort_by_key`, the key
/// being the release time. That sort is stable: the result is the one
/// arrangement of the versions in which release times ascend and versions
/// of one release time keep their order.
#[verifier::external_body]
fn sort_by_release_time(versions: &mut Vec<Version>)
    ensures
        exists|order: Seq<int>| sorted_stably(old(versions)@, final(versions)@, order),
{
    versions.sort_by_key(|version| version.release_time);
}

/// Turns the manifest into the versions of a run.
///
/// The release times of the two ends of the configured range are looked up
/// in the manifest as it comes; where one is missing the result says
/// which. Then the manifest's versions are sorted by release time, and the
/// run covers those of them that [`covered`] admits. The result holds all
/// versions in sorted order, and the covered ones in the same order.
pub fn prepare_versions(manifest: VersionManifest, config: &Config) -> (prepared: Result<
    (Vec<Version>, Vec<Version>),
    MissingVersion,
>)
    ensures
        match prepared {
            Ok((all, selected)) => {
                &&& verified_times(
                    release_times(manifest.versions@, config.min_version@, config.max_version@),
                ) matches Ok((min, max))
                &&& exists|order: Seq<int>| sorted_stably(manifest.versions@, all@, order)
                &&& views(selected@) == views(all@).filter(
                    |version: VersionView| covered(version, min, max, config.include_snapshots),
                )
            },
            Err(missing) => verified_times(
                release_times(manifest.versions@, config.min_version@, config.max_version@),
            ) == Err::<(i64, i64), MissingVersion>(missing),
        },
{
    let mut all = manifest.versions;
    let (min, max) = match verify_release_times(extract_release_times(&all, config)) {
        Ok(times) => times,
        Err(missing) => {
            return Err(missing);
        },
    };
    sort_by_release_time(&mut all);
    let selected = select_versions(&all, min, max, config.include_snapshots);
    Ok((all, selected))
}

} // verus!
