//! What a registry says about a package: reading the latest version and the
//! listed versions out of its response.

use crate::json::{
    json_member, json_members, member_in, member_of, members_view, parse_value, parsed_json,
    text_in, text_of, value_member, value_members,
};
use crate::version::{
    parse_version_info, version_record, version_view, PackageVersion, PackageVersionView,
};
use serde_json::Value;
use vstd::prelude::*;

verus! {

/// What a lookup asks for beyond the latest version.
#[derive(Clone, Copy, Debug)]
pub struct FetchOptions {
    /// Whether every version that the registry lists is to be read.
    pub parse_all_versions: bool,
}

/// What was read from a registry about one package: when it was read, the
/// latest version, and, where they were asked for, every version that could
/// be read and the identifiers of those that could not.
#[derive(Debug)]
pub struct MetadataFromRegistry {
    pub fetch_timestamp: u64,
    pub latest_version: PackageVersion,
    pub package_versions: Vec<PackageVersion>,
    pub failed_versions: Vec<String>,
}

/// The mathematical content of a [`MetadataFromRegistry`].
pub struct MetadataView {
    pub fetch_timestamp: u64,
    pub latest_version: PackageVersionView,
    pub package_versions: Seq<PackageVersionView>,
    pub failed_versions: Seq<Seq<char>>,
}

/// A list of versions, as mathematical values.
pub open spec fn versions_view(versions: Seq<PackageVersion>) -> Seq<PackageVersionView> {
    Seq::new(versions.len(), |i: int| versions[i]@)
}

/// A list of strings, as mathematical values.
pub open spec fn strings_view(strings: Seq<String>) -> Seq<Seq<char>> {
    Seq::new(strings.len(), |i: int| strings[i]@)
}

impl View for MetadataFromRegistry {
    type V = MetadataView;

    open spec fn view(&self) -> MetadataView {
        MetadataView {
            fetch_timestamp: self.fetch_timestamp,
            latest_version: self.latest_version@,
            package_versions: versions_view(self.package_versions@),
            failed_versions: strings_view(self.failed_versions@),
        }
    }
}

/// Metadata that may be missing, as a mathematical value.
pub open spec fn metadata_view(metadata: Option<MetadataFromRegistry>) -> Option<MetadataView> {
    match metadata {
        Some(m) => Some(m@),
        None => None,
    }
}

/// A copy of a list of versions.
pub fn clone_versions(versions: &Vec<PackageVersion>) -> (r: Vec<PackageVersion>)
    ensures
        versions_view(r@) == versions_view(versions@),
{
    let mut out: Vec<PackageVersion> = Vec::new();
    let mut i: usize = 0;
    while i < versions.len()
        invariant
            i <= versions.len(),
            out@.len() == i,
            forall|k: int| 0 <= k < i ==> out@[k]@ == versions@[k]@,
        decreases versions.len() - i,
    {
        out.push(versions[i].clone());
        i += 1;
    }
    assert(versions_view(out@) =~= versions_view(versions@));
    out
}

/// A copy of a list of strings.
pub fn clone_strings(strings: &Vec<String>) -> (r: Vec<String>)
    ensures
        strings_view(r@) == strings_view(strings@),
{
    let mut out: Vec<String> = Vec::new();
    let mut i: usize = 0;
    while i < strings.len()
        invariant
            i <= strings.len(),
            out@.len() == i,
            forall|k: int| 0 <= k < i ==> out@[k]@ == strings@[k]@,
        decreases strings.len() - i,
    {
        out.push(strings[i].clone());
        i += 1;
    }
    assert(strings_view(out@) =~= strings_view(strings@));
    out
}

impl Clone for MetadataFromRegistry {
    fn clone(&self) -> (r: Self)
        ensures
            r@ == self@,
    {
        MetadataFromRegistry {
            fetch_timestamp: self.fetch_timestamp,
            latest_version: self.latest_version.clone(),
            package_versions: clone_versions(&self.package_versions),
            failed_versions: clone_strings(&self.failed_versions),
        }
    }
}

/// One version that a registry lists under an identifier, read or not.
pub struct ListedVersion {
    pub id: String,
    pub version: Option<PackageVersion>,
}

/// The mathematical content of a [`ListedVersion`].
pub struct ListedVersionView {
    pub id: Seq<char>,
    pub version: Option<PackageVersionView>,
}

impl View for ListedVersion {
    type V = ListedVersionView;

    open spec fn view(&self) -> ListedVersionView {
        ListedVersionView { id: self.id@, version: version_view(self.version) }
    }
}

/// A list of outcomes, as mathematical values.
pub open spec fn outcomes_view(outcomes: Seq<ListedVersion>) -> Seq<ListedVersionView> {
    Seq::new(outcomes.len(), |i: int| outcomes[i]@)
}

/// The versions that were read, in the order of the list.
pub open spec fn read_versions(outcomes: Seq<ListedVersionView>) -> Seq<PackageVersionView> {
    outcomes.filter(|o: ListedVersionView| o.version is Some).map_values(|o: ListedVersionView| o.version->0)
}

/// The identifiers of the versions that were not read, in the order of the
/// list.
pub open spec fn failed_ids(outcomes: Seq<ListedVersionView>) -> Seq<Seq<char>> {
    outcomes.filter(|o: ListedVersionView| o.version is None).map_values(|o: ListedVersionView| o.id)
}

proof fn lemma_partition_step(outcomes: Seq<ListedVersionView>, next: ListedVersionView)
    ensures
        read_versions(outcomes.push(next)) == if next.version is Some {
            read_versions(outcomes).push(next.version->0)
        } else {
            read_versions(outcomes)
        },
        failed_ids(outcomes.push(next)) == if next.version is None {
            failed_ids(outcomes).push(next.id)
        } else {
            failed_ids(outcomes)
        },
{
    let is_read = |o: ListedVersionView| o.version is Some;
    let is_failed = |o: ListedVersionView| o.version is None;
    outcomes.lemma_filter_push(next, is_read);
    outcomes.lemma_filter_push(next, is_failed);
    assert(read_versions(outcomes.push(next)) =~= if next.version is Some {
        read_versions(outcomes).push(next.version->0)
    } else {
        read_versions(outcomes)
    });
    assert(failed_ids(outcomes.push(next)) =~= if next.version is None {
        failed_ids(outcomes).push(next.id)
    } else {
        failed_ids(outcomes)
    });
}

/// Every listed version is counted once: it was read or it failed.
pub proof fn lemma_partition_counts(outcomes: Seq<ListedVersionView>)
    ensures
        read_versions(outcomes).len() + failed_ids(outcomes).len() == outcomes.len(),
    decreases outcomes.len(),
{
    if outcomes.len() == 0 {
        reveal(Seq::filter);
    } else {
        let shorter = outcomes.drop_last();
        lemma_partition_counts(shorter);
        lemma_partition_step(shorter, outcomes.last());
        assert(shorter.push(outcomes.last()) == outcomes);
    }
}

/// Splits a list of outcomes into the versions that were read and the
/// identifiers of those that were not, each in the order of the list.
pub fn partition_versions(outcomes: Vec<ListedVersion>) -> (r: (Vec<PackageVersion>, Vec<String>))
    ensures
        versions_view(r.0@) == read_versions(outcomes_view(outcomes@)),
        strings_view(r.1@) == failed_ids(outcomes_view(outcomes@)),
{
    let ghost all = outcomes_view(outcomes@);
    let mut versions: Vec<PackageVersion> = Vec::new();
    let mut failed: Vec<String> = Vec::new();
    let mut i: usize = 0;
    proof {
        reveal(Seq::filter);
        assert(all.take(0) =~= Seq::empty());
        assert(versions_view(versions@) =~= read_versions(all.take(0)));
        assert(strings_view(failed@) =~= failed_ids(all.take(0)));
    }
    while i < outcomes.len()
        invariant
            i <= outcomes.len(),
            all == outcomes_view(outcomes@),
            versions_view(versions@) == read_versions(all.take(i as int)),
            strings_view(failed@) == failed_ids(all.take(i as int)),
        decreases outcomes.len() - i,
    {
        let ghost before_versions = versions_view(versions@);
        let ghost before_failed = strings_view(failed@);
        let outcome = &outcomes[i];
        proof {
            lemma_partition_step(all.take(i as int), all[i as int]);
            assert(all.take(i as int).push(all[i as int]) == all.take(i as int + 1));
            assert(all[i as int] == outcome@);
        }
        match &outcome.version {
            Some(version) => {
                versions.push(version.clone());
                assert(versions_view(versions@) =~= before_versions.push(version@));
            },
            None => {
                failed.push(outcome.id.clone());
                assert(strings_view(failed@) =~= before_failed.push(outcome.id@));
            },
        }
        i += 1;
    }
    proof {
        assert(all.take(outcomes.len() as int) == all);
    }
    (versions, failed)
}

/// The outcomes of reading every member of `versions`.
pub open spec fn member_outcomes(response: Value, members: Seq<(Seq<char>, Value)>) -> Seq<
    ListedVersionView,
> {
    Seq::new(
        members.len(),
        |i: int| ListedVersionView { id: members[i].0, version: version_record(response, members[i].1) },
    )
}

/// The metadata made of a latest version and of the outcomes of the listed
/// versions, stamped with the time `now`.
pub open spec fn assembled_metadata(
    latest: PackageVersionView,
    outcomes: Seq<ListedVersionView>,
    now: u64,
) -> MetadataView {
    MetadataView {
        fetch_timestamp: now,
        latest_version: latest,
        package_versions: read_versions(outcomes),
        failed_versions: failed_ids(outcomes),
    }
}

/// Makes the metadata of a package out of its latest version and of the
/// outcomes of its listed versions.
pub fn assemble_metadata(latest: PackageVersion, outcomes: Vec<ListedVersion>, now: u64) -> (r:
    MetadataFromRegistry)
    ensures
        r@ == assembled_metadata(latest@, outcomes_view(outcomes@), now),
{
    let (package_versions, failed_versions) = partition_versions(outcomes);
    MetadataFromRegistry { fetch_timestamp: now, latest_version: latest, package_versions, failed_versions }
}

/// The version string that the response names as the latest.
pub open spec fn latest_tag(response: Value) -> Option<Seq<char>> {
    text_of(member_of(json_member(response, "dist-tags"@), "latest"@))
}

/// The record of the latest version: the one that the response lists under
/// `versions` for its latest tag.
pub open spec fn latest_record(response: Value) -> Option<PackageVersionView> {
    match latest_tag(response) {
        Some(tag) => match member_of(json_member(response, "versions"@), tag) {
            Some(info) => version_record(response, info),
            None => None,
        },
        None => None,
    }
}

/// The outcomes of the versions that a lookup asks for: all that the
/// response lists where all are asked for, none otherwise. `None` where all
/// are asked for and the response has no object under `versions`.
pub open spec fn listed_outcomes(response: Value, options: FetchOptions) -> Option<
    Seq<ListedVersionView>,
> {
    if options.parse_all_versions {
        match member_of(Some(response), "versions"@) {
            Some(versions) => match json_members(versions) {
                Some(members) => Some(member_outcomes(response, members)),
                None => None,
            },
            None => None,
        }
    } else {
        Some(Seq::empty())
    }
}

/// What a parsed response says about a package: there is metadata where the
/// latest version can be read, and it holds the listed versions that were
/// asked for, split into those that could be read and those that could not.
pub open spec fn response_metadata(response: Value, options: FetchOptions, now: u64) -> Option<
    MetadataView,
> {
    match (latest_record(response), listed_outcomes(response, options)) {
        (Some(latest), Some(outcomes)) => Some(assembled_metadata(latest, outcomes, now)),
        _ => None,
    }
}

/// What the body of a response says about a package: nothing where the body
/// is not JSON.
pub open spec fn body_metadata(body: Seq<u8>, options: FetchOptions, now: u64) -> Option<
    MetadataView,
> {
    match parsed_json(body) {
        Some(response) => response_metadata(response, options, now),
        None => None,
    }
}

/// Reads every member of the response's `versions`.
fn read_listed(response: &Value, options: FetchOptions) -> (r: Option<Vec<ListedVersion>>)
    ensures
        match r {
            Some(outcomes) => listed_outcomes(*response, options) == Some(
                outcomes_view(outcomes@),
            ),
            None => listed_outcomes(*response, options) is None,
        },
{
    let mut outcomes: Vec<ListedVersion> = Vec::new();
    if !options.parse_all_versions {
        assert(outcomes_view(outcomes@) =~= Seq::empty());
        return Some(outcomes);
    }
    let versions = match value_member(response, "versions") {
        Some(v) => v,
        None => {
            return None;
        },
    };
    let members = match value_members(versions) {
        Some(m) => m,
        None => {
            return None;
        },
    };
    let ghost listed = members_view(members@);
    let mut i: usize = 0;
    while i < members.len()
        invariant
            i <= members.len(),
            listed == members_view(members@),
            outcomes@.len() == i,
            forall|k: int|
                0 <= k < i ==> (#[trigger] outcomes@[k])@ == member_outcomes(*response, listed)[k],
        decreases members.len() - i,
    {
        let (id, info) = members[i];
        let version = parse_version_info(response, info);
        outcomes.push(ListedVersion { id: id.clone(), version });
        i += 1;
    }
    assert(outcomes_view(outcomes@) =~= member_outcomes(*response, listed));
    Some(outcomes)
}

/// Reads what a parsed response says about a package.
pub fn read_response(response: &Value, fetch_options: FetchOptions, now: u64) -> (r: Option<
    MetadataFromRegistry,
>)
    ensures
        metadata_view(r) == response_metadata(*response, fetch_options, now),
{
    let tag = text_in(member_in(value_member(response, "dist-tags"), "latest"));
    let info = match tag {
        Some(t) => member_in(value_member(response, "versions"), t),
        None => None,
    };
    let latest = match info {
        Some(i) => parse_version_info(response, i),
        None => None,
    };
    match latest {
        Some(latest) => match read_listed(response, fetch_options) {
            Some(outcomes) => Some(assemble_metadata(latest, outcomes, now)),
            None => None,
        },
        None => None,
    }
}

/// Reads what the body of a registry's response says about a package. `now`
/// is the time at which the response was read.
pub fn fetch(body: &[u8], fetch_options: FetchOptions, now: u64) -> (r: Option<
    MetadataFromRegistry,
>)
    ensures
        metadata_view(r) == body_metadata(body@, fetch_options, now),
{
    match parse_value(body) {
        Some(response) => read_response(&response, fetch_options, now),
        None => None,
    }
}

} // verus!
