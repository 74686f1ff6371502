//! The versions to offer for a version specifier that is being typed, and
//! what to report about versions that could not be read.

use crate::fetcher::{versions_view, MetadataFromRegistry};
use crate::text::{
    chars_of, has_prefix, lemma_lex_lt_connected, lemma_lex_lt_irreflexive,
    lemma_lex_lt_transitive, lex_less, lex_lt,
};
use crate::timestamp::Timestamp;
use crate::version::{PackageVersion, PackageVersionView};
use vstd::prelude::*;

verus! {

/// A version to offer: its version string and the moment it was published.
#[derive(Debug)]
pub struct Candidate {
    pub label: String,
    pub published: Timestamp,
}

/// The mathematical content of a [`Candidate`].
pub struct CandidateView {
    pub label: Seq<char>,
    pub published: Timestamp,
}

impl View for Candidate {
    type V = CandidateView;

    open spec fn view(&self) -> CandidateView {
        CandidateView { label: self.label@, published: self.published }
    }
}

/// A list of candidates, as mathematical values.
pub open spec fn candidates_view(candidates: Seq<Candidate>) -> Seq<CandidateView> {
    Seq::new(candidates.len(), |i: int| candidates[i]@)
}

/// The candidate that offers a version.
pub open spec fn candidate_of(version: PackageVersionView) -> CandidateView {
    CandidateView { label: version.version, published: version.date }
}

/// Whether a version's string begins with `prefix`.
pub open spec fn begins_with(prefix: Seq<char>) -> spec_fn(PackageVersionView) -> bool {
    |v: PackageVersionView| prefix.is_prefix_of(v.version)
}

/// Whether a candidate's label is `label`.
pub open spec fn has_label(label: Seq<char>) -> spec_fn(CandidateView) -> bool {
    |c: CandidateView| c.label == label
}

/// The candidates for a prefix, in the order of the catalog: one for every
/// version whose string begins with the prefix, as text.
pub open spec fn matching(catalog: Seq<PackageVersionView>, prefix: Seq<char>) -> Seq<
    CandidateView,
> {
    catalog.filter(begins_with(prefix)).map_values(|v: PackageVersionView| candidate_of(v))
}

/// No candidate stands before one whose label comes later in the order of
/// strings.
pub open spec fn sorted_descending(candidates: Seq<CandidateView>) -> bool {
    forall|i: int, j: int|
        0 <= i < j < candidates.len() ==> !lex_lt(
            (#[trigger] candidates[i]).label,
            (#[trigger] candidates[j]).label,
        )
}

/// `ranked` is the ranking of a catalog for a prefix: it holds the matching
/// candidates and no others, labels descend in the order of strings, and
/// candidates with one label keep the order that they have in the catalog.
pub open spec fn is_ranking(
    ranked: Seq<CandidateView>,
    catalog: Seq<PackageVersionView>,
    prefix: Seq<char>,
) -> bool {
    &&& sorted_descending(ranked)
    &&& ranked.to_multiset() == matching(catalog, prefix).to_multiset()
    &&& forall|label: Seq<char>| #[trigger]
        ranked.filter(has_label(label)) == matching(catalog, prefix).filter(has_label(label))
}

proof fn lemma_matching_step(catalog: Seq<PackageVersionView>, prefix: Seq<char>, i: int)
    requires
        0 <= i < catalog.len(),
    ensures
        matching(catalog.take(i + 1), prefix) == if prefix.is_prefix_of(catalog[i].version) {
            matching(catalog.take(i), prefix).push(candidate_of(catalog[i]))
        } else {
            matching(catalog.take(i), prefix)
        },
{
    let before = catalog.take(i);
    assert(before.push(catalog[i]) == catalog.take(i + 1));
    before.lemma_filter_push(catalog[i], begins_with(prefix));
    assert(matching(catalog.take(i + 1), prefix) =~= if prefix.is_prefix_of(catalog[i].version) {
        matching(before, prefix).push(candidate_of(catalog[i]))
    } else {
        matching(before, prefix)
    });
}

proof fn lemma_filter_nothing(s: Seq<CandidateView>, label: Seq<char>)
    requires
        forall|k: int| 0 <= k < s.len() ==> (#[trigger] s[k]).label != label,
    ensures
        s.filter(has_label(label)) == Seq::<CandidateView>::empty(),
    decreases s.len(),
{
    reveal(Seq::filter);
    if s.len() > 0 {
        let shorter = s.drop_last();
        assert forall|k: int| 0 <= k < shorter.len() implies (#[trigger] shorter[k]).label
            != label by {
            assert(shorter[k] == s[k]);
        }
        lemma_filter_nothing(shorter, label);
        assert(s.last() == s[s.len() - 1]);
    }
}

proof fn lemma_insert_by_label(
    current: Seq<CandidateView>,
    at: int,
    next: CandidateView,
    label: Seq<char>,
)
    requires
        0 <= at <= current.len(),
        forall|k: int| at <= k < current.len() ==> (#[trigger] current[k]).label != next.label,
    ensures
        current.insert(at, next).filter(has_label(label)) == if next.label == label {
            current.filter(has_label(label)).push(next)
        } else {
            current.filter(has_label(label))
        },
{
    let pred = has_label(label);
    let head = current.take(at);
    let tail = current.skip(at);
    let one = Seq::<CandidateView>::empty().push(next);
    assert(current =~= head + tail);
    assert(current.insert(at, next) =~= (head + one) + tail);
    Seq::filter_distributes_over_add(head, tail, pred);
    Seq::filter_distributes_over_add(head + one, tail, pred);
    Seq::filter_distributes_over_add(head, one, pred);
    Seq::<CandidateView>::empty().lemma_filter_push(next, pred);
    assert(Seq::<CandidateView>::empty().filter(pred) =~= Seq::<CandidateView>::empty()) by {
        reveal(Seq::filter);
    }
    if next.label == label {
        assert forall|k: int| 0 <= k < tail.len() implies (#[trigger] tail[k]).label != label by {
            assert(tail[k] == current[at + k]);
        }
        lemma_filter_nothing(tail, label);
        assert(current.insert(at, next).filter(pred) =~= current.filter(pred).push(next));
    } else {
        assert(current.insert(at, next).filter(pred) =~= current.filter(pred));
    }
}

proof fn lemma_insert_sorted(current: Seq<CandidateView>, at: int, next: CandidateView)
    requires
        sorted_descending(current),
        0 <= at <= current.len(),
        forall|k: int| 0 <= k < at ==> !lex_lt((#[trigger] current[k]).label, next.label),
        at < current.len() ==> lex_lt(current[at].label, next.label),
    ensures
        sorted_descending(current.insert(at, next)),
        forall|k: int| at <= k < current.len() ==> lex_lt((#[trigger] current[k]).label, next.label),
{
    assert forall|k: int| at <= k < current.len() implies lex_lt(
        (#[trigger] current[k]).label,
        next.label,
    ) by {
        if k > at {
            assert(!lex_lt(current[at].label, current[k].label));
            if lex_lt(current[k].label, current[at].label) {
                lemma_lex_lt_transitive(current[k].label, current[at].label, next.label);
            } else {
                lemma_lex_lt_connected(current[k].label, current[at].label);
            }
        }
    }
    let grown = current.insert(at, next);
    assert forall|i: int, j: int| 0 <= i < j < grown.len() implies !lex_lt(
        (#[trigger] grown[i]).label,
        (#[trigger] grown[j]).label,
    ) by {
        if j == at {
            assert(grown[i] == current[i]);
        } else if i == at {
            assert(grown[j] == current[j - 1]);
            if lex_lt(next.label, current[j - 1].label) {
                lemma_lex_lt_transitive(next.label, current[j - 1].label, next.label);
                lemma_lex_lt_irreflexive(next.label);
            }
        } else {
            let a = if i < at { i } else { i - 1 };
            let b = if j < at { j } else { j - 1 };
            assert(grown[i] == current[a]);
            assert(grown[j] == current[b]);
        }
    }
}

proof fn lemma_filter_drop_last(s: Seq<CandidateView>, label: Seq<char>)
    requires
        s.len() > 0,
    ensures
        s.filter(has_label(label)) == if s.last().label == label {
            s.drop_last().filter(has_label(label)).push(s.last())
        } else {
            s.drop_last().filter(has_label(label))
        },
{
    reveal(Seq::filter);
}

proof fn lemma_sorted_equal(a: Seq<CandidateView>, b: Seq<CandidateView>)
    requires
        sorted_descending(a),
        sorted_descending(b),
        a.len() == b.len(),
        forall|label: Seq<char>| #[trigger] a.filter(has_label(label)) == b.filter(has_label(label)),
    ensures
        a == b,
    decreases a.len(),
{
    if a.len() == 0 {
        assert(a =~= b);
    } else {
        let low_a = a.last().label;
        let low_b = b.last().label;
        lemma_filter_drop_last(a, low_a);
        lemma_filter_drop_last(b, low_b);
        let in_b = a.filter(has_label(low_a));
        let in_a = b.filter(has_label(low_b));
        assert(in_b == b.filter(has_label(low_a)));
        assert(in_a == a.filter(has_label(low_b)));
        assert(in_b.last() == a.last());
        assert(in_a.last() == b.last());
        assert(in_b.contains(a.last())) by {
            assert(in_b[in_b.len() - 1] == a.last());
        }
        assert(in_a.contains(b.last())) by {
            assert(in_a[in_a.len() - 1] == b.last());
        }
        b.lemma_filter_contains_rev(has_label(low_a), a.last());
        a.lemma_filter_contains_rev(has_label(low_b), b.last());
        let i = choose|i: int| 0 <= i < b.len() && b[i] == a.last();
        let j = choose|j: int| 0 <= j < a.len() && a[j] == b.last();
        assert(!lex_lt(low_a, low_b)) by {
            if i < b.len() - 1 {
                assert(!lex_lt(b[i].label, b[b.len() - 1].label));
            }
            lemma_lex_lt_irreflexive(low_b);
        }
        assert(!lex_lt(low_b, low_a)) by {
            if j < a.len() - 1 {
                assert(!lex_lt(a[j].label, a[a.len() - 1].label));
            }
            lemma_lex_lt_irreflexive(low_a);
        }
        lemma_lex_lt_connected(low_a, low_b);
        assert(a.last() == b.last());
        let a_rest = a.drop_last();
        let b_rest = b.drop_last();
        assert forall|label: Seq<char>| #[trigger]
            a_rest.filter(has_label(label)) == b_rest.filter(has_label(label)) by {
            lemma_filter_drop_last(a, label);
            lemma_filter_drop_last(b, label);
            assert(a.filter(has_label(label)) == b.filter(has_label(label)));
            if low_a == label {
                assert(a_rest.filter(has_label(label)) =~= a.filter(has_label(label)).drop_last());
                assert(b_rest.filter(has_label(label)) =~= b.filter(has_label(label)).drop_last());
            }
        }
        assert(sorted_descending(a_rest)) by {
            assert forall|x: int, y: int| 0 <= x < y < a_rest.len() implies !lex_lt(
                (#[trigger] a_rest[x]).label,
                (#[trigger] a_rest[y]).label,
            ) by {
                assert(a_rest[x] == a[x] && a_rest[y] == a[y]);
            }
        }
        assert(sorted_descending(b_rest)) by {
            assert forall|x: int, y: int| 0 <= x < y < b_rest.len() implies !lex_lt(
                (#[trigger] b_rest[x]).label,
                (#[trigger] b_rest[y]).label,
            ) by {
                assert(b_rest[x] == b[x] && b_rest[y] == b[y]);
            }
        }
        lemma_sorted_equal(a_rest, b_rest);
        assert(a =~= a_rest.push(a.last()));
        assert(b =~= b_rest.push(b.last()));
    }
}

/// A catalog has one ranking for a prefix: two lists that both are rankings
/// of it are the same list.
pub proof fn lemma_ranking_is_unique(
    first: Seq<CandidateView>,
    second: Seq<CandidateView>,
    catalog: Seq<PackageVersionView>,
    prefix: Seq<char>,
)
    requires
        is_ranking(first, catalog, prefix),
        is_ranking(second, catalog, prefix),
    ensures
        first == second,
{
    vstd::seq_lib::to_multiset_len(first);
    vstd::seq_lib::to_multiset_len(second);
    vstd::seq_lib::to_multiset_len(matching(catalog, prefix));
    assert forall|label: Seq<char>| #[trigger]
        first.filter(has_label(label)) == second.filter(has_label(label)) by {
        assert(first.filter(has_label(label)) == matching(catalog, prefix).filter(
            has_label(label),
        ));
        assert(second.filter(has_label(label)) == matching(catalog, prefix).filter(
            has_label(label),
        ));
    }
    lemma_sorted_equal(first, second);
}

/// The versions to offer for the prefix that has been typed: those whose
/// string begins with it, the later strings first. Strings are compared as
/// text and not as version numbers, so `9.0.0` is offered before `10.0.0`.
pub fn rank_versions(catalog: &Vec<PackageVersion>, prefix: &str) -> (r: Vec<Candidate>)
    ensures
        is_ranking(candidates_view(r@), versions_view(catalog@), prefix@),
{
    let wanted = chars_of(prefix);
    let ghost all = versions_view(catalog@);
    let mut ranked: Vec<Candidate> = Vec::new();
    let mut keys: Vec<Vec<char>> = Vec::new();
    let mut i: usize = 0;
    proof {
        reveal(Seq::filter);
        assert(all.take(0) =~= Seq::empty());
        assert(matching(all.take(0), prefix@) =~= Seq::empty());
        assert(candidates_view(ranked@) =~= Seq::empty());
        assert forall|label: Seq<char>| #[trigger]
            candidates_view(ranked@).filter(has_label(label)) == matching(
                all.take(0),
                prefix@,
            ).filter(has_label(label)) by {}
    }
    while i < catalog.len()
        invariant
            i <= catalog.len(),
            all == versions_view(catalog@),
            wanted@ == prefix@,
            keys@.len() == ranked@.len(),
            forall|k: int| 0 <= k < keys@.len() ==> (#[trigger] keys@[k])@ == ranked@[k]@.label,
            is_ranking(candidates_view(ranked@), all.take(i as int), prefix@),
        decreases catalog.len() - i,
    {
        let ghost current = candidates_view(ranked@);
        let ghost before = matching(all.take(i as int), prefix@);
        let version = &catalog[i];
        let key = chars_of(version.version.as_str());
        proof {
            lemma_matching_step(all, prefix@, i as int);
            assert(all[i as int] == version@);
        }
        if has_prefix(&key, &wanted) {
            let ghost next = candidate_of(version@);
            let mut at: usize = 0;
            while at < ranked.len() && !lex_less(&keys[at], &key)
                invariant
                    at <= ranked.len(),
                    keys@.len() == ranked@.len(),
                    current == candidates_view(ranked@),
                    key@ == next.label,
                    forall|k: int|
                        0 <= k < keys@.len() ==> (#[trigger] keys@[k])@ == ranked@[k]@.label,
                    forall|k: int| 0 <= k < at ==> !lex_lt((#[trigger] current[k]).label, next.label),
                decreases ranked.len() - at,
            {
                at += 1;
            }
            proof {
                lemma_insert_sorted(current, at as int, next);
                assert forall|k: int| at <= k < current.len() implies (#[trigger] current[k]).label
                    != next.label by {
                    lemma_lex_lt_irreflexive(next.label);
                }
                assert forall|label: Seq<char>| #[trigger]
                    current.insert(at as int, next).filter(has_label(label)) == before.push(
                        next,
                    ).filter(has_label(label)) by {
                    lemma_insert_by_label(current, at as int, next, label);
                    before.lemma_filter_push(next, has_label(label));
                    assert(current.filter(has_label(label)) == before.filter(has_label(label)));
                }
                vstd::seq_lib::to_multiset_insert(current, at as int, next);
                vstd::seq_lib::to_multiset_build(before, next);
            }
            ranked.insert(at, Candidate { label: version.version.clone(), published: version.date });
            keys.insert(at, key);
            proof {
                assert(candidates_view(ranked@) =~= current.insert(at as int, next));
            }
        }
        i += 1;
    }
    proof {
        assert(all.take(catalog.len() as int) == all);
    }
    ranked
}

/// How far the reading of a package's listed versions failed.
#[derive(Clone, Copy, Debug, PartialEq, Eq, Structural)]
pub enum FailureExtent {
    /// Some versions could not be read, others could.
    SomeFailed,
    /// No listed version could be read.
    AllFailed,
}

/// What there is to report about the versions of a package that could not
/// be read: nothing where none failed, else whether some failed or all.
pub fn failure_extent(metadata: &MetadataFromRegistry) -> (r: Option<FailureExtent>)
    ensures
        r == if metadata@.failed_versions.len() == 0 {
            None
        } else if metadata@.package_versions.len() == 0 {
            Some(FailureExtent::AllFailed)
        } else {
            Some(FailureExtent::SomeFailed)
        },
{
    if metadata.failed_versions.len() == 0 {
        None
    } else if metadata.package_versions.len() == 0 {
        Some(FailureExtent::AllFailed)
    } else {
        Some(FailureExtent::SomeFailed)
    }
}

} // verus!
