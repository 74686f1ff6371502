use package_version_server::completion::{failure_extent, rank_versions, FailureExtent};
use package_version_server::fetcher::{clone_strings, clone_versions, MetadataFromRegistry};
use package_version_server::hover::{hover_markdown, is_manifest_path};
use package_version_server::text::{
    chars_of, ends_with, find_char, has_prefix, has_suffix, lex_less,
};
use package_version_server::timestamp::Timestamp;
use package_version_server::version::PackageVersion;

fn version(text: &str, seconds: i64) -> PackageVersion {
    PackageVersion {
        version: text.to_string(),
        description: "Fast web framework".to_string(),
        homepage: None,
        date: Timestamp { seconds, nanos: 0, offset_seconds: 0 },
    }
}

fn labels(catalog: &[&str], prefix: &str) -> Vec<String> {
    let versions: Vec<PackageVersion> = catalog.iter().map(|v| version(v, 0)).collect();
    rank_versions(&versions, prefix).into_iter().map(|c| c.label).collect()
}

#[test]
fn ranking_filters_by_prefix_and_sorts_descending() {
    assert_eq!(labels(&["4.17.1", "4.16.0", "3.9.0"], "4"), vec!["4.17.1", "4.16.0"]);
    assert_eq!(labels(&["3.9.0", "4.16.0", "4.17.1"], "4"), vec!["4.17.1", "4.16.0"]);
    assert_eq!(labels(&["3.9.0", "4.16.0", "4.17.1"], ""), vec!["4.17.1", "4.16.0", "3.9.0"]);
    assert_eq!(labels(&["3.9.0", "4.16.0"], "5"), Vec::<String>::new());
    assert_eq!(labels(&[], "4"), Vec::<String>::new());
}

#[test]
fn ranking_compares_text_not_numbers() {
    assert_eq!(labels(&["10.0.0", "9.0.0", "1.0.0"], ""), vec!["9.0.0", "10.0.0", "1.0.0"]);
    assert_eq!(labels(&["1.2", "1.2.0", "1.10.0"], "1."), vec!["1.2.0", "1.2", "1.10.0"]);
}

#[test]
fn ranking_keeps_catalog_order_among_equal_labels() {
    let catalog = vec![version("1.0.0", 1), version("2.0.0", 2), version("1.0.0", 3)];
    let ranked = rank_versions(&catalog, "");
    let seen: Vec<(String, i64)> =
        ranked.into_iter().map(|c| (c.label, c.published.seconds)).collect();
    assert_eq!(
        seen,
        vec![("2.0.0".to_string(), 2), ("1.0.0".to_string(), 1), ("1.0.0".to_string(), 3)]
    );
}

fn metadata(read: &[&str], failed: &[&str]) -> MetadataFromRegistry {
    MetadataFromRegistry {
        fetch_timestamp: 0,
        latest_version: version("1.0.0", 0),
        package_versions: read.iter().map(|v| version(v, 0)).collect(),
        failed_versions: failed.iter().map(|v| v.to_string()).collect(),
    }
}

#[test]
fn failure_extent_tells_some_from_all() {
    assert_eq!(failure_extent(&metadata(&["1.0.0"], &[])), None);
    assert_eq!(failure_extent(&metadata(&[], &[])), None);
    assert_eq!(failure_extent(&metadata(&["1.0.0"], &["0.9.0"])), Some(FailureExtent::SomeFailed));
    assert_eq!(failure_extent(&metadata(&[], &["0.9.0", "0.8.0"])), Some(FailureExtent::AllFailed));
}

#[test]
fn clone_copies_every_field() {
    let source = metadata(&["1.0.0", "2.0.0"], &["x"]);
    let copy = source.clone();
    assert_eq!(copy.fetch_timestamp, source.fetch_timestamp);
    assert_eq!(copy.package_versions.len(), 2);
    assert_eq!(copy.package_versions[1].version, "2.0.0");
    assert_eq!(copy.failed_versions, source.failed_versions);
    assert_eq!(clone_strings(&source.failed_versions), vec!["x".to_string()]);
    assert_eq!(clone_versions(&source.package_versions)[0].description, "Fast web framework");
}

#[test]
fn hover_markdown_with_and_without_homepage() {
    let mut latest = version("4.17.1", 0);
    assert_eq!(
        hover_markdown("express", &latest, "2 years ago"),
        "**express**\n\nFast web framework\n\nLatest version: 4.17.1 (published 2 years ago)\n\n"
    );
    latest.homepage = Some("http://expressjs.com".to_string());
    assert_eq!(
        hover_markdown("express", &latest, "2 years ago"),
        "**express**\n\nFast web framework\n\nLatest version: 4.17.1 (published 2 years ago)\n\n[http://expressjs.com](http://expressjs.com)"
    );
}

#[test]
fn manifest_paths_end_in_package_json() {
    assert!(is_manifest_path("/work/app/package.json"));
    assert!(is_manifest_path("package.json"));
    assert!(!is_manifest_path("/work/app/package.json.bak"));
    assert!(!is_manifest_path("/work/app/Cargo.toml"));
    assert!(!is_manifest_path(""));
}

#[test]
fn strings_compare_like_str() {
    let pairs = [("", "a"), ("a", ""), ("a", "a"), ("4.16.0", "4.17.1"), ("10.0.0", "9.0.0"), ("ab", "abc"), ("é", "z"), ("z", "é")];
    for (a, b) in pairs {
        assert_eq!(lex_less(&chars_of(a), &chars_of(b)), a < b, "{a:?} < {b:?}");
        assert_eq!(ends_with(a, b), a.ends_with(b));
        assert_eq!(has_prefix(&chars_of(a), &chars_of(b)), a.starts_with(b));
        assert_eq!(has_suffix(&chars_of(a), &chars_of(b)), a.ends_with(b));
    }
    assert_eq!(chars_of("héllo"), vec!['h', 'é', 'l', 'l', 'o']);
    assert_eq!(find_char(&chars_of("@a/b/c"), '/'), Some(2));
    assert_eq!(find_char(&chars_of("abc"), '/'), None);
}
