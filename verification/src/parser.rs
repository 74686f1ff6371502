//! Finds the dependency entry of a manifest that lies under a cursor.
//!
//! The manifest is a JSON document that tree-sitter has parsed. A tree-sitter
//! query picks out every `name: version` pair that sits in an object under one
//! of the recognised dependency keys; the verified part of this module walks
//! those matches and decides which of them, if any, the cursor is on.

use crate::position::{Position, Range};
use std::sync::Arc;
use vstd::prelude::*;

verus! {

#[verifier::external_type_specification]
#[verifier::external_body]
pub struct ExTree(tree_sitter::Tree);

#[verifier::external_type_specification]
pub struct ExPoint(tree_sitter::Point);

/// The query that finds dependency entries. `@name` and `@version` capture the
/// text between the quotes of the key and of the value of every pair inside an
/// object whose own key, `@root_name`, is one of the recognised block names.
pub const DEPENDENCY_QUERY: &'static str = r#"
        (pair
            key: (string (string_content) @root_name)
            value:
                (object
                    (pair
                        key: (string (string_content) @name)
                        value: (string (string_content) @version)
                    ) @_dep_specifier
                )+
            (#any-of? @root_name "dependencies" "devDependencies" "peerDependencies" "optionalDependencies" "bundledDependencies" "bundleDependencies")
        )+
    "#;

/// One node that the query captured: the capture's name in the query, the
/// node's text (`None` where its bytes are not UTF-8), and the points at which
/// the node starts and ends.
pub struct Capture {
    pub name: String,
    pub text: Option<String>,
    pub start: tree_sitter::Point,
    pub end: tree_sitter::Point,
}

/// A point of a syntax tree as a position of the document. tree-sitter keeps
/// rows and columns in 32 bits, so nothing is lost.
pub open spec fn position_of(point: tree_sitter::Point) -> Position {
    Position { line: point.row as u32, character: point.column as u32 }
}

/// A point of a syntax tree as a position of the document.
pub fn to_position(point: &tree_sitter::Point) -> (r: Position)
    ensures
        r == position_of(*point),
{
    Position {
        line: #[verifier::truncate] (point.row as u32),
        character: #[verifier::truncate] (point.column as u32),
    }
}

/// The mathematical content of a [`Capture`].
pub struct CaptureValue {
    pub name: Seq<char>,
    pub text: Option<Seq<char>>,
    pub range: Range,
}

impl View for Capture {
    type V = CaptureValue;

    open spec fn view(&self) -> CaptureValue {
        CaptureValue {
            name: self.name@,
            text: match self.text {
                Some(t) => Some(t@),
                None => None,
            },
            range: Range { start: position_of(self.start), end: position_of(self.end) },
        }
    }
}

impl Capture {
    /// The span of the captured node.
    pub fn range(&self) -> (r: Range)
        ensures
            r == self@.range,
    {
        Range { start: to_position(&self.start), end: to_position(&self.end) }
    }
}

/// The entry found under a cursor: the dependency's name, its version
/// specifier as written, and the span of the token that the cursor is on.
#[derive(Debug)]
pub struct ParseResult {
    pub package_name: String,
    pub version: String,
    pub match_range: Range,
}

/// The mathematical content of a [`ParseResult`].
pub struct ParseResultView {
    pub package_name: Seq<char>,
    pub version: Seq<char>,
    pub match_range: Range,
}

impl View for ParseResult {
    type V = ParseResultView;

    open spec fn view(&self) -> ParseResultView {
        ParseResultView {
            package_name: self.package_name@,
            version: self.version@,
            match_range: self.match_range,
        }
    }
}

/// The text that a syntax tree was parsed from.
pub uninterp spec fn tree_source(tree: tree_sitter::Tree) -> Seq<char>;

/// The syntax tree that tree-sitter's JSON parser makes of a text, parsing
/// it afresh and without a limit on time; `None` where it makes none.
pub uninterp spec fn parsed_tree(text: Seq<char>) -> Option<tree_sitter::Tree>;

/// The matches of [`DEPENDENCY_QUERY`] in a syntax tree over its text, in the
/// order in which tree-sitter reports them, each with its captures in order;
/// `None` where tree-sitter does not accept the query.
pub uninterp spec fn dependency_matches(tree: tree_sitter::Tree, text: Seq<char>) -> Option<
    Seq<Seq<CaptureValue>>,
>;

/// The captures of one match, as mathematical values.
pub open spec fn captures_view(captures: Seq<Capture>) -> Seq<CaptureValue> {
    Seq::new(captures.len(), |k: int| captures[k]@)
}

/// A list of matches, as mathematical values.
pub open spec fn matches_view(found: Seq<Vec<Capture>>) -> Seq<Seq<CaptureValue>> {
    Seq::new(found.len(), |i: int| captures_view(found[i]@))
}

/// What a query run returned, as a mathematical value.
pub open spec fn query_view(found: Option<Vec<Vec<Capture>>>) -> Option<Seq<Seq<CaptureValue>>> {
    match found {
        Some(ms) => Some(matches_view(ms@)),
        None => None,
    }
}

/// What an extraction returned, as a mathematical value.
pub open spec fn result_view(result: Option<ParseResult>) -> Option<ParseResultView> {
    match result {
        Some(entry) => Some(entry@),
        None => None,
    }
}

/// Calls `tree_sitter::Parser::new`, `Parser::set_language` with
/// `tree_sitter_json::language()`, and `Parser::parse` without an old tree.
/// Trusted: what comes back depends on the text alone, the parser being new
/// and having neither a timeout nor a cancellation flag, and a tree that
/// comes back was parsed from `text`. Nothing is claimed about which texts
/// give a tree.
#[verifier::external_body]
fn parse_json_text(text: &str) -> (r: Option<tree_sitter::Tree>)
    ensures
        r == parsed_tree(text@),
        r matches Some(tree) ==> tree_source(tree) == text@,
{
    let mut parser = tree_sitter::Parser::new();
    parser.set_language(&tree_sitter_json::language()).ok()?;
    parser.parse(text, None)
}

/// Calls `tree_sitter::Query::new` on [`DEPENDENCY_QUERY`] and
/// `tree_sitter::QueryCursor::matches` from the root of `tree`, and copies out
/// of every capture its name (`Query::capture_names`), its text
/// (`Node::utf8_text`) and its two ends (`Node::start_position`,
/// `Node::end_position`). Trusted: the result is a function of the tree and
/// the text. tree-sitter slices `text` by the byte offsets of the tree's
/// nodes, so the tree has to be one that was parsed from `text`.
#[verifier::external_body]
fn run_dependency_query(text: &str, tree: &tree_sitter::Tree) -> (r: Option<Vec<Vec<Capture>>>)
    requires
        tree_source(*tree) == text@,
    ensures
        query_view(r) == dependency_matches(*tree, text@),
{
    let query = tree_sitter::Query::new(&tree_sitter_json::language(), DEPENDENCY_QUERY).ok()?;
    let mut cursor = tree_sitter::QueryCursor::new();
    let found = cursor.matches(&query, tree.root_node(), text.as_bytes());
    Some(found.map(|m| m.captures.iter().map(|c| Capture {
        name: query.capture_names()[c.index as usize].to_string(),
        text: c.node.utf8_text(text.as_bytes()).ok().map(str::to_string),
        start: c.node.start_position(),
        end: c.node.end_position(),
    }).collect()).collect())
}

/// The capture name of a dependency's name token.
pub open spec fn name_label() -> Seq<char> {
    "name"@
}

/// The capture name of a dependency's version token.
pub open spec fn version_label() -> Seq<char> {
    "version"@
}

/// A capture is a token when it is the name or the version of an entry.
pub open spec fn is_token(capture: CaptureValue) -> bool {
    capture.name == name_label() || capture.name == version_label()
}

/// A match cannot be read when the text of one of its tokens is not UTF-8.
pub open spec fn unreadable(captures: Seq<CaptureValue>) -> bool {
    exists|k: int| 0 <= k < captures.len() && is_token(#[trigger] captures[k]) && captures[k].text is None
}

/// The text of the last capture that carries `label`.
pub open spec fn last_text(captures: Seq<CaptureValue>, label: Seq<char>) -> Option<Seq<char>>
    decreases captures.len(),
{
    if captures.len() == 0 {
        None
    } else if captures.last().name == label {
        captures.last().text
    } else {
        last_text(captures.drop_last(), label)
    }
}

/// The span of the last token whose span holds `position`.
pub open spec fn last_hit(captures: Seq<CaptureValue>, position: Position) -> Option<Range>
    decreases captures.len(),
{
    if captures.len() == 0 {
        None
    } else if is_token(captures.last()) && captures.last().range.spec_contains(position) {
        Some(captures.last().range)
    } else {
        last_hit(captures.drop_last(), position)
    }
}

/// What one match says about a position.
pub enum Outcome {
    /// The position is on a token of this entry.
    Found(ParseResultView),
    /// The match has no name, no version, or no token under the position.
    Skip,
    /// A token of the match has no text: the search ends without a result.
    Abort,
}

/// What one match says about `position`: its name, its version and the span
/// of the token under the position, if it has all three.
pub open spec fn match_outcome(captures: Seq<CaptureValue>, position: Position) -> Outcome {
    if unreadable(captures) {
        Outcome::Abort
    } else {
        match (
            last_text(captures, name_label()),
            last_text(captures, version_label()),
            last_hit(captures, position),
        ) {
            (Some(package_name), Some(version), Some(match_range)) => Outcome::Found(
                ParseResultView { package_name, version, match_range },
            ),
            _ => Outcome::Skip,
        }
    }
}

/// The result of the first match, in order, that does not skip `position`.
pub open spec fn select_entry(found: Seq<Seq<CaptureValue>>, position: Position) -> Option<
    ParseResultView,
>
    decreases found.len(),
{
    if found.len() == 0 {
        None
    } else {
        match match_outcome(found[0], position) {
            Outcome::Found(entry) => Some(entry),
            Outcome::Abort => None,
            Outcome::Skip => select_entry(found.drop_first(), position),
        }
    }
}

/// The entry under `position`, given what a query run returned: nothing where
/// the query could not be run.
pub open spec fn extraction(found: Option<Seq<Seq<CaptureValue>>>, position: Position) -> Option<
    ParseResultView,
> {
    match found {
        Some(ms) => select_entry(ms, position),
        None => None,
    }
}

/// What one match says about `position`; the result is `None` where the match
/// skips, `Some(None)` where it aborts the search, and `Some(Some(entry))`
/// where the position is on one of its tokens.
pub fn examine_match(captures: &Vec<Capture>, position: Position) -> (r: Option<Option<ParseResult>>)
    ensures
        match match_outcome(captures_view(captures@), position) {
            Outcome::Found(entry) => r matches Some(Some(e)) && e@ == entry,
            Outcome::Abort => r matches Some(None),
            Outcome::Skip => r is None,
        },
{
    let name_tag = "name".to_owned();
    let version_tag = "version".to_owned();
    let ghost cs = captures_view(captures@);
    let mut package_name: Option<String> = None;
    let mut version: Option<String> = None;
    let mut match_range: Option<Range> = None;
    let mut k: usize = 0;
    while k < captures.len()
        invariant
            k <= captures.len(),
            cs == captures_view(captures@),
            name_tag@ == name_label(),
            version_tag@ == version_label(),
            !unreadable(cs.take(k as int)),
            result_text(package_name) == last_text(cs.take(k as int), name_label()),
            result_text(version) == last_text(cs.take(k as int), version_label()),
            match_range == last_hit(cs.take(k as int), position),
        decreases captures.len() - k,
    {
        let capture = &captures[k];
        let ghost before = cs.take(k as int);
        let ghost after = cs.take(k as int + 1);
        proof {
            assert(after.drop_last() == before);
            assert(after.last() == cs[k as int]);
            assert(cs[k as int] == capture@);
            reveal_strlit("name");
            reveal_strlit("version");
            assert(name_label() != version_label()) by {
                assert(name_label().len() == 4);
                assert(version_label().len() == 7);
            }
        }
        let is_name = capture.name == name_tag;
        let is_version = capture.name == version_tag;
        if is_name || is_version {
            match &capture.text {
                Some(text) => {
                    if is_name {
                        package_name = Some(text.clone());
                    } else {
                        version = Some(text.clone());
                    }
                },
                None => {
                    proof {
                        assert(is_token(cs[k as int]) && cs[k as int].text is None);
                    }
                    return Some(None);
                },
            }
            let range = capture.range();
            if range.contains(&position) {
                match_range = Some(range);
            }
        }
        proof {
            assert(!unreadable(after)) by {
                if unreadable(after) {
                    let w = choose|w: int|
                        0 <= w < after.len() && is_token(#[trigger] after[w]) && after[w].text is None;
                    if w < k {
                        assert(before[w] == after[w]);
                        assert(unreadable(before));
                    }
                }
            }
        }
        k += 1;
    }
    proof {
        assert(cs.take(captures.len() as int) == cs);
    }
    match (package_name, version, match_range) {
        (Some(package_name), Some(version), Some(match_range)) => Some(
            Some(ParseResult { package_name, version, match_range }),
        ),
        _ => None,
    }
}

/// The view of an optional string.
pub open spec fn result_text(text: Option<String>) -> Option<Seq<char>> {
    match text {
        Some(t) => Some(t@),
        None => None,
    }
}

/// The entry under `position` among the matches of a query run: the first
/// match, in order, that has a name, a version and a token whose span holds
/// the position, either end included.
pub fn select_match(found: &Vec<Vec<Capture>>, position: Position) -> (r: Option<ParseResult>)
    ensures
        result_view(r) == select_entry(matches_view(found@), position),
{
    let ghost ms = matches_view(found@);
    let mut i: usize = 0;
    proof {
        assert(ms.skip(0) == ms);
    }
    while i < found.len()
        invariant
            i <= found.len(),
            ms == matches_view(found@),
            select_entry(ms, position) == select_entry(ms.skip(i as int), position),
        decreases found.len() - i,
    {
        proof {
            assert(ms.skip(i as int)[0] == captures_view(found@[i as int]@));
            assert(ms.skip(i as int).drop_first() == ms.skip(i as int + 1));
        }
        match examine_match(&found[i], position) {
            Some(decided) => {
                return decided;
            },
            None => {},
        }
        i += 1;
    }
    None
}

/// A manifest held together with the syntax tree that was parsed from it.
pub struct Document {
    text: String,
    tree: tree_sitter::Tree,
}

impl Document {
    #[verifier::type_invariant]
    spec fn tree_matches_text(self) -> bool {
        tree_source(self.tree) == self.text@
    }

    /// The manifest's text.
    pub closed spec fn source(&self) -> Seq<char> {
        self.text@
    }

    /// The manifest's syntax tree.
    pub closed spec fn tree(&self) -> tree_sitter::Tree {
        self.tree
    }

    /// Parses `text` as JSON. There is a document exactly where tree-sitter
    /// makes a tree of the text, and it holds that tree and the text
    /// unchanged.
    pub fn parse(text: String) -> (r: Option<Document>)
        ensures
            match parsed_tree(text@) {
                Some(tree) => r matches Some(document) && document.source() == text@
                    && document.tree() == tree,
                None => r is None,
            },
    {
        match parse_json_text(text.as_str()) {
            Some(tree) => Some(Document { text, tree }),
            None => None,
        }
    }

    /// The manifest's text.
    pub fn text(&self) -> (r: &str)
        ensures
            r@ == self.source(),
    {
        self.text.as_str()
    }

    /// The dependency entry that lies under `position`, if there is one.
    pub fn entry_at(&self, position: Position) -> (r: Option<ParseResult>)
        ensures
            result_view(r) == extraction(
                dependency_matches(self.tree(), self.source()),
                position,
            ),
    {
        proof {
            use_type_invariant(self);
        }
        match run_dependency_query(self.text.as_str(), &self.tree) {
            Some(found) => select_match(&found, position),
            None => None,
        }
    }
}

/// The dependency entry of the manifest `text`, parsed as `tree`, that lies
/// under `position`: its name, its version specifier and the span of the
/// token that holds the position.
pub fn extract_package_name(text: Arc<str>, tree: tree_sitter::Tree, position: Position) -> (r:
    Option<ParseResult>)
    requires
        tree_source(tree) == text@,
    ensures
        result_view(r) == extraction(dependency_matches(tree, text@), position),
{
    let source: &str = &text;
    match run_dependency_query(source, &tree) {
        Some(found) => select_match(&found, position),
        None => None,
    }
}

/// A match is an entry with its name at `n` and its version at `v` when
/// those two captures are its only tokens, both have text, and the name's
/// span ends before the version's span begins.
pub open spec fn is_entry(captures: Seq<CaptureValue>, n: int, v: int) -> bool {
    &&& 0 <= n < captures.len()
    &&& 0 <= v < captures.len()
    &&& captures[n].name == name_label()
    &&& captures[v].name == version_label()
    &&& captures[n].text is Some
    &&& captures[v].text is Some
    &&& forall|k: int| 0 <= k < captures.len() && is_token(#[trigger] captures[k]) ==> k == n || k == v
    &&& !captures[v].range.start.spec_le(captures[n].range.end)
}

/// No token of the match holds `position`, and every token has text.
pub open spec fn passes_by(captures: Seq<CaptureValue>, position: Position) -> bool {
    forall|k: int|
        0 <= k < captures.len() && is_token(#[trigger] captures[k]) ==> captures[k].text is Some
            && !captures[k].range.spec_contains(position)
}

proof fn lemma_labels_differ()
    ensures
        name_label() != version_label(),
{
    reveal_strlit("name");
    reveal_strlit("version");
    assert(name_label().len() == 4);
    assert(version_label().len() == 7);
}

proof fn lemma_last_text_at(captures: Seq<CaptureValue>, label: Seq<char>, at: int)
    requires
        0 <= at < captures.len(),
        captures[at].name == label,
        forall|k: int| at < k < captures.len() ==> (#[trigger] captures[k]).name != label,
    ensures
        last_text(captures, label) == captures[at].text,
    decreases captures.len(),
{
    if at < captures.len() - 1 {
        let shorter = captures.drop_last();
        assert(shorter[at] == captures[at]);
        assert forall|k: int| at < k < shorter.len() implies (#[trigger] shorter[k]).name != label by {
            assert(shorter[k] == captures[k]);
        }
        lemma_last_text_at(shorter, label, at);
    }
}

proof fn lemma_last_hit_at(captures: Seq<CaptureValue>, position: Position, at: int)
    requires
        0 <= at < captures.len(),
        is_token(captures[at]),
        captures[at].range.spec_contains(position),
        forall|k: int|
            at < k < captures.len() ==> !(is_token(#[trigger] captures[k])
                && captures[k].range.spec_contains(position)),
    ensures
        last_hit(captures, position) == Some(captures[at].range),
    decreases captures.len(),
{
    if at < captures.len() - 1 {
        let shorter = captures.drop_last();
        assert(shorter[at] == captures[at]);
        assert forall|k: int| at < k < shorter.len() implies !(is_token(#[trigger] shorter[k])
            && shorter[k].range.spec_contains(position)) by {
            assert(shorter[k] == captures[k]);
        }
        lemma_last_hit_at(shorter, position, at);
    }
}

proof fn lemma_no_hit(captures: Seq<CaptureValue>, position: Position)
    requires
        forall|k: int|
            0 <= k < captures.len() && is_token(#[trigger] captures[k])
                ==> !captures[k].range.spec_contains(position),
    ensures
        last_hit(captures, position) is None,
    decreases captures.len(),
{
    if captures.len() > 0 {
        let shorter = captures.drop_last();
        assert forall|k: int| 0 <= k < shorter.len() && is_token(#[trigger] shorter[k])
            implies !shorter[k].range.spec_contains(position) by {
            assert(shorter[k] == captures[k]);
        }
        lemma_no_hit(shorter, position);
    }
}

proof fn lemma_skip_passed(found: Seq<Seq<CaptureValue>>, position: Position, upto: int)
    requires
        0 <= upto <= found.len(),
        forall|j: int| 0 <= j < upto ==> passes_by(#[trigger] found[j], position),
    ensures
        select_entry(found, position) == select_entry(found.skip(upto), position),
    decreases upto,
{
    if upto == 0 {
        assert(found.skip(0) == found);
    } else {
        assert(passes_by(found[0], position));
        lemma_no_hit(found[0], position);
        assert(!unreadable(found[0]));
        let rest = found.drop_first();
        assert forall|j: int| 0 <= j < upto - 1 implies passes_by(#[trigger] rest[j], position) by {
            assert(rest[j] == found[j + 1]);
        }
        lemma_skip_passed(rest, position, upto - 1);
        assert(rest.skip(upto - 1) == found.skip(upto));
    }
}

/// A cursor on the name of an entry finds that entry: where the matches
/// before it pass the position by, and the position lies within the span of
/// the entry's name, either end included, the result is that name, the
/// entry's version and the name's span.
pub proof fn lemma_cursor_on_name(
    found: Seq<Seq<CaptureValue>>,
    position: Position,
    i: int,
    n: int,
    v: int,
)
    requires
        0 <= i < found.len(),
        is_entry(found[i], n, v),
        found[i][n].range.spec_contains(position),
        forall|j: int| 0 <= j < i ==> passes_by(#[trigger] found[j], position),
    ensures
        select_entry(found, position) == Some(
            ParseResultView {
                package_name: found[i][n].text->0,
                version: found[i][v].text->0,
                match_range: found[i][n].range,
            },
        ),
{
    let entry = found[i];
    lemma_labels_differ();
    lemma_skip_passed(found, position, i);
    assert(found.skip(i)[0] == entry);
    lemma_last_text_at(entry, name_label(), n);
    lemma_last_text_at(entry, version_label(), v);
    assert(!entry[v].range.spec_contains(position));
    lemma_last_hit_at(entry, position, n);
}

/// A cursor on the version of an entry finds that entry: where the matches
/// before it pass the position by, and the position lies within the span of
/// the entry's version, either end included, the result is the entry's name,
/// that version and the version's span.
pub proof fn lemma_cursor_on_version(
    found: Seq<Seq<CaptureValue>>,
    position: Position,
    i: int,
    n: int,
    v: int,
)
    requires
        0 <= i < found.len(),
        is_entry(found[i], n, v),
        found[i][v].range.spec_contains(position),
        forall|j: int| 0 <= j < i ==> passes_by(#[trigger] found[j], position),
    ensures
        select_entry(found, position) == Some(
            ParseResultView {
                package_name: found[i][n].text->0,
                version: found[i][v].text->0,
                match_range: found[i][v].range,
            },
        ),
{
    let entry = found[i];
    lemma_labels_differ();
    lemma_skip_passed(found, position, i);
    assert(found.skip(i)[0] == entry);
    lemma_last_text_at(entry, name_label(), n);
    lemma_last_text_at(entry, version_label(), v);
    assert(!entry[n].range.spec_contains(position));
    lemma_last_hit_at(entry, position, v);
}

/// A cursor that is on no token finds nothing: where no name and no version
/// of any match holds the position, there is no result.
pub proof fn lemma_cursor_on_no_token(found: Seq<Seq<CaptureValue>>, position: Position)
    requires
        forall|i: int, k: int|
            0 <= i < found.len() && 0 <= k < found[i].len() && is_token(#[trigger] found[i][k])
                ==> !found[i][k].range.spec_contains(position),
    ensures
        select_entry(found, position) is None,
    decreases found.len(),
{
    if found.len() > 0 {
        lemma_no_hit(found[0], position);
        let rest = found.drop_first();
        assert forall|i: int, k: int|
            0 <= i < rest.len() && 0 <= k < rest[i].len() && is_token(#[trigger] rest[i][k])
            implies !rest[i][k].range.spec_contains(position) by {
            assert(rest[i] == found[i + 1]);
        }
        lemma_cursor_on_no_token(rest, position);
    }
}

} // verus!
