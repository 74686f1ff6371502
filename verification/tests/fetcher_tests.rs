use package_version_server::cache::{fresh, Lookup, PackageVersionFetcher, REFRESH_DURATION_MS};
use package_version_server::fetcher::{
    assemble_metadata, fetch, partition_versions, read_response, FetchOptions, ListedVersion,
};
use package_version_server::registry::{package_scope, request_url, DEFAULT_REGISTRY};
use package_version_server::timestamp::Timestamp;
use package_version_server::version::{assemble_version, parse_version_info, PackageVersion};

const LATEST_ONLY: FetchOptions = FetchOptions { parse_all_versions: false };
const ALL: FetchOptions = FetchOptions { parse_all_versions: true };

const EXPRESS: &str = r#"{
  "dist-tags": { "latest": "4.17.1" },
  "versions": {
    "4.17.1": { "version": "4.17.1", "description": "Fast web framework", "homepage": "http://expressjs.com" }
  },
  "time": { "4.17.1": "2021-05-01T00:00:00.000Z" }
}"#;

const TWO_VERSIONS: &str = r#"{
  "dist-tags": { "latest": "4.17.1" },
  "versions": {
    "4.16.0": { "description": "older" },
    "4.17.1": { "version": "4.17.1", "description": "Fast web framework" }
  },
  "time": { "4.16.0": "2018-01-01T00:00:00Z", "4.17.1": "2021-05-01T02:00:00+02:00" }
}"#;

fn may_first_2021() -> Timestamp {
    Timestamp { seconds: 1619827200, nanos: 0, offset_seconds: 0 }
}

#[test]
fn fetch_reads_latest_record() {
    let metadata = fetch(EXPRESS.as_bytes(), LATEST_ONLY, 77).unwrap();
    assert_eq!(metadata.fetch_timestamp, 77);
    assert_eq!(metadata.latest_version.version, "4.17.1");
    assert_eq!(metadata.latest_version.description, "Fast web framework");
    assert_eq!(metadata.latest_version.homepage.as_deref(), Some("http://expressjs.com"));
    assert_eq!(metadata.latest_version.date, may_first_2021());
    assert!(metadata.package_versions.is_empty());
    assert!(metadata.failed_versions.is_empty());
}

#[test]
fn fetch_of_all_versions_separates_failures() {
    let metadata = fetch(TWO_VERSIONS.as_bytes(), ALL, 5).unwrap();
    assert_eq!(metadata.latest_version.version, "4.17.1");
    assert_eq!(metadata.latest_version.homepage, None);
    assert_eq!(metadata.package_versions.len(), 1);
    assert_eq!(metadata.package_versions[0].version, "4.17.1");
    assert_eq!(metadata.failed_versions, vec!["4.16.0".to_string()]);
    let shallow = fetch(TWO_VERSIONS.as_bytes(), LATEST_ONLY, 5).unwrap();
    assert!(shallow.package_versions.is_empty());
    assert!(shallow.failed_versions.is_empty());
}

#[test]
fn timestamp_keeps_offset_and_fraction() {
    let metadata = fetch(TWO_VERSIONS.as_bytes(), LATEST_ONLY, 0).unwrap();
    assert_eq!(
        metadata.latest_version.date,
        Timestamp { seconds: 1619827200, nanos: 0, offset_seconds: 7200 }
    );
    let body = EXPRESS.replace("00.000Z", "00.250Z");
    let fractional = fetch(body.as_bytes(), LATEST_ONLY, 0).unwrap();
    assert_eq!(
        fractional.latest_version.date,
        Timestamp { seconds: 1619827200, nanos: 250_000_000, offset_seconds: 0 }
    );
}

#[test]
fn fetch_fails_without_a_readable_latest() {
    assert!(fetch(b"not json at all", LATEST_ONLY, 0).is_none());
    assert!(fetch(b"", LATEST_ONLY, 0).is_none());
    assert!(fetch(br#"{"versions":{},"time":{}}"#, LATEST_ONLY, 0).is_none());
    let no_such_version = EXPRESS.replace(r#""latest": "4.17.1""#, r#""latest": "9.9.9""#);
    assert!(fetch(no_such_version.as_bytes(), LATEST_ONLY, 0).is_none());
    let bad_time = EXPRESS.replace("2021-05-01T00:00:00.000Z", "yesterday");
    assert!(fetch(bad_time.as_bytes(), ALL, 0).is_none());
    let no_description = EXPRESS.replace(r#""description": "Fast web framework", "#, "");
    assert!(fetch(no_description.as_bytes(), LATEST_ONLY, 0).is_none());
    let no_time = EXPRESS.replace(r#""time": { "4.17.1": "2021-05-01T00:00:00.000Z" }"#, r#""time": {}"#);
    assert!(fetch(no_time.as_bytes(), LATEST_ONLY, 0).is_none());
}

#[test]
fn record_round_trips_its_fields() {
    let response: serde_json::Value = serde_json::from_str(EXPRESS).unwrap();
    let info = &response["versions"]["4.17.1"];
    let record = parse_version_info(&response, info).unwrap();
    assert_eq!(Some(record.version.as_str()), info["version"].as_str());
    assert_eq!(Some(record.description.as_str()), info["description"].as_str());
    assert_eq!(record.homepage.as_deref(), info["homepage"].as_str());
    let written = response["time"][record.version.as_str()].as_str().unwrap();
    let moment = chrono::DateTime::parse_from_rfc3339(written).unwrap();
    assert_eq!(record.date.seconds, moment.timestamp());
    assert_eq!(record.date.nanos, moment.timestamp_subsec_nanos());
    assert_eq!(record.date.offset_seconds, moment.offset().local_minus_utc());
    let again = read_response(&response, LATEST_ONLY, 1).unwrap();
    assert_eq!(again.latest_version.version, record.version);
    assert_eq!(again.latest_version.date, record.date);
}

#[test]
fn parse_version_info_rejects_non_strings_and_huge_numbers() {
    let response: serde_json::Value = serde_json::from_str(
        r#"{"time":{"1.0.0":"2020-01-01T00:00:00Z","99999999999999999999.0.0":"2020-01-01T00:00:00Z"}}"#,
    )
    .unwrap();
    let good: serde_json::Value =
        serde_json::from_str(r#"{"version":"1.0.0","description":"d","homepage":7}"#).unwrap();
    let record = parse_version_info(&response, &good).unwrap();
    assert_eq!(record.homepage, None);
    let numeric: serde_json::Value =
        serde_json::from_str(r#"{"version":1,"description":"d"}"#).unwrap();
    assert!(parse_version_info(&response, &numeric).is_none());
    let huge: serde_json::Value =
        serde_json::from_str(r#"{"version":"99999999999999999999.0.0","description":"d"}"#).unwrap();
    assert!(parse_version_info(&response, &huge).is_none());
    assert!(parse_version_info(&response, &serde_json::Value::Null).is_none());
}

#[test]
fn assemble_version_needs_version_description_and_date() {
    let date = Some(may_first_2021());
    let whole = assemble_version(Some("1.0.0"), true, Some("d"), Some("h"), date).unwrap();
    assert_eq!(whole.version, "1.0.0");
    assert_eq!(whole.description, "d");
    assert_eq!(whole.homepage.as_deref(), Some("h"));
    assert_eq!(whole.date, may_first_2021());
    assert!(assemble_version(Some("1.0.0"), true, Some("d"), None, date).unwrap().homepage.is_none());
    assert!(assemble_version(None, true, Some("d"), None, date).is_none());
    assert!(assemble_version(Some("1.0.0"), false, Some("d"), None, date).is_none());
    assert!(assemble_version(Some("1.0.0"), true, None, None, date).is_none());
    assert!(assemble_version(Some("1.0.0"), true, Some("d"), None, None).is_none());
}

fn version(text: &str) -> PackageVersion {
    PackageVersion {
        version: text.to_string(),
        description: "d".to_string(),
        homepage: None,
        date: may_first_2021(),
    }
}

#[test]
fn partition_keeps_order_and_counts_each_once() {
    let outcomes = vec![
        ListedVersion { id: "a".to_string(), version: Some(version("1.0.0")) },
        ListedVersion { id: "b".to_string(), version: None },
        ListedVersion { id: "c".to_string(), version: Some(version("3.0.0")) },
        ListedVersion { id: "d".to_string(), version: None },
    ];
    let (read, failed) = partition_versions(outcomes);
    let labels: Vec<&str> = read.iter().map(|v| v.version.as_str()).collect();
    assert_eq!(labels, vec!["1.0.0", "3.0.0"]);
    assert_eq!(failed, vec!["b".to_string(), "d".to_string()]);
    let metadata = assemble_metadata(version("9.0.0"), Vec::new(), 3);
    assert_eq!(metadata.fetch_timestamp, 3);
    assert_eq!(metadata.latest_version.version, "9.0.0");
    assert!(metadata.package_versions.is_empty() && metadata.failed_versions.is_empty());
}

#[test]
fn request_url_encodes_the_name() {
    assert_eq!(request_url("https://r.example", "express"), "https://r.example/express");
    assert_eq!(request_url("https://r.example", "@scope/pkg"), "https://r.example/%40scope%2Fpkg");
    assert_eq!(request_url("r", "a b~c_d-e.f"), "r/a%20b~c_d-e.f");
    assert_eq!(request_url("r", "é"), "r/%C3%A9");
}

#[test]
fn scope_is_what_stands_before_the_first_slash() {
    assert_eq!(package_scope("@scope/pkg").as_deref(), Some("@scope"));
    assert_eq!(package_scope("@a/b/c").as_deref(), Some("@a"));
    assert_eq!(package_scope("@noslash"), None);
    assert_eq!(package_scope("plain/pkg"), None);
    assert_eq!(package_scope(""), None);
}

fn fetcher_with_scopes() -> PackageVersionFetcher {
    PackageVersionFetcher::new(
        vec![
            ("@corp".to_string(), "https://old.corp.example".to_string()),
            ("@corp".to_string(), "https://npm.corp.example".to_string()),
        ],
        None,
    )
}

#[test]
fn registry_is_chosen_by_scope() {
    let fetcher = fetcher_with_scopes();
    assert_eq!(fetcher.request_url("@corp/tool"), "https://npm.corp.example/%40corp%2Ftool");
    assert_eq!(fetcher.request_url("@other/tool"), format!("{}/%40other%2Ftool", DEFAULT_REGISTRY));
    assert_eq!(fetcher.request_url("express"), "https://registry.npmjs.org/express");
    let custom = PackageVersionFetcher::new(Vec::new(), Some("http://localhost:4873".to_string()));
    assert_eq!(custom.request_url("express"), "http://localhost:4873/express");
}

fn expect_fetch(lookup: Lookup) -> String {
    match lookup {
        Lookup::Fetch(url) => url,
        Lookup::Cached(_) => panic!("expected a request"),
    }
}

#[test]
fn second_get_within_refresh_duration_is_served_from_cache() {
    let mut fetcher = fetcher_with_scopes();
    assert_eq!(expect_fetch(fetcher.get("express", 1_000)), "https://registry.npmjs.org/express");
    let first = fetcher.complete("express", Some(EXPRESS.as_bytes()), LATEST_ONLY, 1_200).unwrap();
    match fetcher.get("express", 1_200 + REFRESH_DURATION_MS - 1) {
        Lookup::Cached(second) => {
            assert_eq!(second.fetch_timestamp, first.fetch_timestamp);
            assert_eq!(second.latest_version.version, first.latest_version.version);
            assert_eq!(second.latest_version.description, first.latest_version.description);
            assert_eq!(second.latest_version.homepage, first.latest_version.homepage);
            assert_eq!(second.latest_version.date, first.latest_version.date);
        },
        Lookup::Fetch(_) => panic!("expected the cached entry"),
    }
    expect_fetch(fetcher.get("lodash", 1_300));
}

#[test]
fn get_after_refresh_duration_asks_again() {
    let mut fetcher = fetcher_with_scopes();
    fetcher.complete("express", Some(EXPRESS.as_bytes()), LATEST_ONLY, 1_200).unwrap();
    expect_fetch(fetcher.get("express", 1_200 + REFRESH_DURATION_MS));
    let renewed = fetcher.complete("express", Some(TWO_VERSIONS.as_bytes()), ALL, 40_000).unwrap();
    assert_eq!(renewed.failed_versions.len(), 1);
    match fetcher.get("express", 40_001) {
        Lookup::Cached(entry) => {
            assert_eq!(entry.fetch_timestamp, 40_000);
            assert_eq!(entry.package_versions.len(), 1);
        },
        Lookup::Fetch(_) => panic!("expected the renewed entry"),
    }
}

#[test]
fn failed_request_leaves_the_cache_as_it_is() {
    let mut fetcher = fetcher_with_scopes();
    assert!(fetcher.complete("express", None, LATEST_ONLY, 10).is_none());
    expect_fetch(fetcher.get("express", 11));
    fetcher.complete("express", Some(EXPRESS.as_bytes()), LATEST_ONLY, 100).unwrap();
    assert!(fetcher.complete("express", Some(b"<html>"), LATEST_ONLY, 200).is_none());
    match fetcher.get("express", 300) {
        Lookup::Cached(entry) => assert_eq!(entry.fetch_timestamp, 100),
        Lookup::Fetch(_) => panic!("expected the earlier entry"),
    }
}

#[test]
fn freshness_is_strictly_less_than_thirty_seconds() {
    assert_eq!(REFRESH_DURATION_MS, 30_000);
    assert!(fresh(1_000, 1_000));
    assert!(fresh(1_000, 30_999));
    assert!(!fresh(1_000, 31_000));
    assert!(fresh(5_000, 10));
    assert!(!fresh(0, u64::MAX));
}

#[test]
fn store_overwrites_an_entry() {
    let mut fetcher = fetcher_with_scopes();
    fetcher.store("express", assemble_metadata(version("1.0.0"), Vec::new(), 10));
    fetcher.store("express", assemble_metadata(version("2.0.0"), Vec::new(), 20));
    match fetcher.get("express", 25) {
        Lookup::Cached(entry) => assert_eq!(entry.latest_version.version, "2.0.0"),
        Lookup::Fetch(_) => panic!("expected the stored entry"),
    }
}
