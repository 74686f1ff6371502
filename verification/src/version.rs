//! One published version of a package, as a registry describes it.

use crate::json::{
    json_member, json_text, member_in, member_of, str_view, text_in, text_of, value_member,
    value_view,
};
use crate::timestamp::{parse_rfc3339, rfc3339_timestamp, Timestamp};
use serde_json::Value;
use vstd::prelude::*;

verus! {

/// A version of a package: its version string as the registry wrote it, its
/// description, its homepage if it has one, and the moment it was published.
#[derive(Debug)]
pub struct PackageVersion {
    pub version: String,
    pub description: String,
    pub homepage: Option<String>,
    pub date: Timestamp,
}

/// The mathematical content of a [`PackageVersion`].
pub struct PackageVersionView {
    pub version: Seq<char>,
    pub description: Seq<char>,
    pub homepage: Option<Seq<char>>,
    pub date: Timestamp,
}

impl View for PackageVersion {
    type V = PackageVersionView;

    open spec fn view(&self) -> PackageVersionView {
        PackageVersionView {
            version: self.version@,
            description: self.description@,
            homepage: match self.homepage {
                Some(h) => Some(h@),
                None => None,
            },
            date: self.date,
        }
    }
}

impl Clone for PackageVersion {
    fn clone(&self) -> (r: Self)
        ensures
            r@ == self@,
    {
        PackageVersion {
            version: self.version.clone(),
            description: self.description.clone(),
            homepage: match &self.homepage {
                Some(h) => Some(h.clone()),
                None => None,
            },
            date: self.date,
        }
    }
}

/// A version that may be missing, as a mathematical value.
pub open spec fn version_view(version: Option<PackageVersion>) -> Option<PackageVersionView> {
    match version {
        Some(v) => Some(v@),
        None => None,
    }
}

/// Whether semver_rs reads `text` as a version, in its loose mode.
pub uninterp spec fn semver_accepts(text: Seq<char>) -> bool;

/// Calls `semver_rs::Version::parse` with the options `loose` and
/// `include_prerelease` set. Trusted: whether the call succeeds depends on
/// the text alone.
#[verifier::external_body]
pub(crate) fn is_semver(text: &str) -> (r: bool)
    ensures
        r == semver_accepts(text@),
{
    let options = semver_rs::Options { loose: true, include_prerelease: true };
    <semver_rs::Version as semver_rs::Parseable>::parse(text, Some(options)).is_ok()
}

/// The record made of what was read for one version: there is one where the
/// version string is there and reads as a version, the description is there,
/// and the date of publication is there. The homepage may be missing.
pub open spec fn assembled(
    version: Option<Seq<char>>,
    accepted: bool,
    description: Option<Seq<char>>,
    homepage: Option<Seq<char>>,
    date: Option<Timestamp>,
) -> Option<PackageVersionView> {
    if version is Some && accepted && description is Some && date is Some {
        Some(
            PackageVersionView {
                version: version->0,
                description: description->0,
                homepage,
                date: date->0,
            },
        )
    } else {
        None
    }
}

/// Makes the record of one version out of what was read for it: the version
/// string, whether it reads as a version, the description, the homepage and
/// the date of publication. Every field is kept as it was read.
pub fn assemble_version(
    version: Option<&str>,
    accepted: bool,
    description: Option<&str>,
    homepage: Option<&str>,
    date: Option<Timestamp>,
) -> (r: Option<PackageVersion>)
    ensures
        version_view(r) == assembled(
            str_view(version),
            accepted,
            str_view(description),
            str_view(homepage),
            date,
        ),
{
    match (version, description, date) {
        (Some(version), Some(description), Some(date)) => {
            if accepted {
                Some(
                    PackageVersion {
                        version: version.to_owned(),
                        description: description.to_owned(),
                        homepage: match homepage {
                            Some(h) => Some(h.to_owned()),
                            None => None,
                        },
                        date,
                    },
                )
            } else {
                None
            }
        },
        _ => None,
    }
}

/// The text under `key` in a version's metadata.
pub open spec fn field_text(version_info: Value, key: Seq<char>) -> Option<Seq<char>> {
    text_of(json_member(version_info, key))
}

/// The text that the response keeps under `time` for a version string.
pub open spec fn published_text(response: Value, version: Option<Seq<char>>) -> Option<Seq<char>> {
    match version {
        Some(v) => text_of(member_of(json_member(response, "time"@), v)),
        None => None,
    }
}

/// The moment that a text denotes, where there is a text.
pub open spec fn moment_of(text: Option<Seq<char>>) -> Option<Timestamp> {
    match text {
        Some(t) => rfc3339_timestamp(t),
        None => None,
    }
}

/// The record of the version that `version_info` describes in `response`:
/// its `version`, `description` and `homepage` are read from `version_info`,
/// and its date from what `response` keeps under `time` for that version.
pub open spec fn version_record(response: Value, version_info: Value) -> Option<
    PackageVersionView,
> {
    let version = field_text(version_info, "version"@);
    assembled(
        version,
        version is Some && semver_accepts(version->0),
        field_text(version_info, "description"@),
        field_text(version_info, "homepage"@),
        moment_of(published_text(response, version)),
    )
}

/// Reads the record of one version out of a registry's response.
pub fn parse_version_info(response: &Value, version_info: &Value) -> (r: Option<PackageVersion>)
    ensures
        version_view(r) == version_record(*response, *version_info),
{
    let version = text_in(value_member(version_info, "version"));
    let accepted = match version {
        Some(v) => is_semver(v),
        None => false,
    };
    let description = text_in(value_member(version_info, "description"));
    let homepage = text_in(value_member(version_info, "homepage"));
    let published = match version {
        Some(v) => text_in(member_in(value_member(response, "time"), v)),
        None => None,
    };
    let date = match published {
        Some(p) => parse_rfc3339(p),
        None => None,
    };
    assemble_version(version, accepted, description, homepage, date)
}

/// A record keeps what it was read from: its version string, description and
/// homepage are the texts of those fields of the metadata, and its date is
/// the moment that the response gives for that version string.
pub proof fn lemma_record_keeps_fields(response: Value, version_info: Value)
    requires
        version_record(response, version_info) is Some,
    ensures
        ({
            let record = version_record(response, version_info)->0;
            &&& field_text(version_info, "version"@) == Some(record.version)
            &&& field_text(version_info, "description"@) == Some(record.description)
            &&& field_text(version_info, "homepage"@) == record.homepage
            &&& moment_of(published_text(response, Some(record.version))) == Some(record.date)
            &&& semver_accepts(record.version)
        }),
{
}

} // verus!
