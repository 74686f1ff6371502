use package_version_server::parser::{
    examine_match, extract_package_name, select_match, to_position, Capture, Document,
};
use package_version_server::position::{Position, Range};
use tree_sitter::Parser;
use tree_sitter_json::language;

#[test]
fn test_parse_package_json() {
    let package = r#"{
  "dependencies": {
    "express": "^4.17.1"
  }
}
"#;
    let mut parser = Parser::new();
    parser.set_language(&language()).unwrap();
    let res = extract_package_name(
        package.into(),
        parser.parse(&package, None).unwrap(),
        Position {
            line: 2,
            character: 11,
        },
    )
    .unwrap();
    assert_eq!(
        res.match_range,
        Range {
            start: Position {
                line: 2,
                character: 5,
            },
            end: Position {
                line: 2,
                character: 12,
            },
        }
    );
    assert_eq!(res.package_name, "express");
}

#[test]
fn cursor_on_name_of_one_line_manifest() {
    let document = Document::parse(r#"{"dependencies":{"express":"^4.17.1"}}"#.to_string()).unwrap();
    let res = document.entry_at(Position { line: 0, character: 18 }).unwrap();
    assert_eq!(res.package_name, "express");
    assert_eq!(res.version, "^4.17.1");
    assert_eq!(
        res.match_range,
        Range {
            start: Position { line: 0, character: 18 },
            end: Position { line: 0, character: 25 },
        }
    );
}

const MANIFEST: &str = r#"{
  "name": "demo",
  "scripts": {
    "build": "tsc"
  },
  "dependencies": {
    "express": "^4.17.1",
    "lodash": "~4.17.21"
  },
  "devDependencies": {
    "typescript": "5.4.0"
  }
}
"#;

fn at(line: u32, character: u32) -> Position {
    Position { line, character }
}

#[test]
fn cursor_on_version_gives_version_range() {
    let document = Document::parse(MANIFEST.to_string()).unwrap();
    let res = document.entry_at(at(6, 17)).unwrap();
    assert_eq!(res.package_name, "express");
    assert_eq!(res.version, "^4.17.1");
    assert_eq!(res.match_range, Range { start: at(6, 16), end: at(6, 23) });
}

#[test]
fn cursor_on_second_entry_and_other_block() {
    let document = Document::parse(MANIFEST.to_string()).unwrap();
    let lodash = document.entry_at(at(7, 7)).unwrap();
    assert_eq!(lodash.package_name, "lodash");
    assert_eq!(lodash.version, "~4.17.21");
    assert_eq!(lodash.match_range, Range { start: at(7, 5), end: at(7, 11) });
    let typescript = document.entry_at(at(10, 8)).unwrap();
    assert_eq!(typescript.package_name, "typescript");
    assert_eq!(typescript.version, "5.4.0");
}

#[test]
fn token_boundaries_count_as_inside() {
    let document = Document::parse(MANIFEST.to_string()).unwrap();
    assert_eq!(document.entry_at(at(6, 5)).unwrap().package_name, "express");
    assert_eq!(document.entry_at(at(6, 12)).unwrap().package_name, "express");
    assert!(document.entry_at(at(6, 4)).is_none());
    assert!(document.entry_at(at(6, 13)).is_none());
}

#[test]
fn cursor_outside_dependency_blocks_finds_nothing() {
    let document = Document::parse(MANIFEST.to_string()).unwrap();
    assert!(document.entry_at(at(1, 4)).is_none());
    assert!(document.entry_at(at(3, 6)).is_none());
    assert!(document.entry_at(at(3, 14)).is_none());
    assert!(document.entry_at(at(5, 6)).is_none());
    assert!(document.entry_at(at(40, 0)).is_none());
}

#[test]
fn text_that_is_not_json_finds_nothing() {
    let document = Document::parse("this is not a manifest {{{".to_string()).unwrap();
    assert_eq!(document.text(), "this is not a manifest {{{");
    assert!(document.entry_at(at(0, 3)).is_none());
}

fn capture(name: &str, text: Option<&str>, from: (usize, usize), to: (usize, usize)) -> Capture {
    Capture {
        name: name.to_string(),
        text: text.map(|t| t.to_string()),
        start: tree_sitter::Point { row: from.0, column: from.1 },
        end: tree_sitter::Point { row: to.0, column: to.1 },
    }
}

fn entry(row: usize, name: &str, version: &str) -> Vec<Capture> {
    vec![
        capture("root_name", Some("dependencies"), (0, 1), (0, 13)),
        capture("_dep_specifier", None, (row, 0), (row, 40)),
        capture("name", Some(name), (row, 1), (row, 10)),
        capture("version", Some(version), (row, 14), (row, 20)),
    ]
}

#[test]
fn select_match_takes_first_match_with_token_under_cursor() {
    let found = vec![entry(1, "first", "1.0.0"), entry(2, "second", "2.0.0"), entry(2, "third", "3.0.0")];
    let hit = select_match(&found, at(2, 15)).unwrap();
    assert_eq!(hit.package_name, "second");
    assert_eq!(hit.version, "2.0.0");
    assert_eq!(hit.match_range, Range { start: at(2, 14), end: at(2, 20) });
    assert!(select_match(&found, at(2, 12)).is_none());
    assert!(select_match(&found, at(0, 5)).is_none());
    assert!(select_match(&Vec::new(), at(0, 0)).is_none());
}

#[test]
fn examine_match_skips_aborts_and_finds() {
    let whole = entry(1, "pkg", "1.2.3");
    assert!(matches!(examine_match(&whole, at(1, 3)), Some(Some(_))));
    assert!(examine_match(&whole, at(5, 0)).is_none());
    let nameless = vec![capture("version", Some("1.2.3"), (1, 14), (1, 20))];
    assert!(examine_match(&nameless, at(1, 15)).is_none());
    let unreadable = vec![
        capture("name", None, (1, 1), (1, 10)),
        capture("version", Some("1.2.3"), (1, 14), (1, 20)),
    ];
    assert!(matches!(examine_match(&unreadable, at(1, 15)), Some(None)));
    assert!(select_match(&vec![unreadable, entry(1, "pkg", "1.2.3")], at(1, 15)).is_none());
}

#[test]
fn capture_range_converts_points() {
    let c = capture("name", Some("x"), (3, 4), (5, 6));
    assert_eq!(c.range(), Range { start: at(3, 4), end: at(5, 6) });
    assert_eq!(to_position(&tree_sitter::Point { row: 7, column: 9 }), at(7, 9));
}

#[test]
fn positions_compare_in_document_order() {
    assert!(at(1, 5).le(&at(1, 5)));
    assert!(at(1, 5).le(&at(2, 0)));
    assert!(!at(2, 0).le(&at(1, 5)));
    let range = Range { start: at(1, 2), end: at(1, 8) };
    assert!(range.contains(&at(1, 2)));
    assert!(range.contains(&at(1, 8)));
    assert!(!range.contains(&at(1, 9)));
    assert!(!range.contains(&at(0, 5)));
}
