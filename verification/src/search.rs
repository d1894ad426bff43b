//! Three-tier name matching for `find` operations.
//!
//! Matching stops at the first tier that produces results:
//! 1. exact, case-sensitive equality;
//! 2. equality after lowercasing both sides;
//! 3. the lowercased query occurring inside the lowercased name.

use vstd::prelude::*;

use crate::text::{chars_of, contains_chars, is_substring, spec_to_lowercase, str_eq, to_lowercase};

verus! {

/// Resources that carry a searchable name.
pub trait Named {
    /// The name, as characters.
    spec fn spec_name(&self) -> Seq<char>;

    /// The name.
    fn name(&self) -> (r: &str)
        ensures
            r@ == self.spec_name(),
    ;
}

impl Named for String {
    open spec fn spec_name(&self) -> Seq<char> {
        self@
    }

    fn name(&self) -> (r: &str) {
        self.as_str()
    }
}

impl Named for crate::models::Project {
    open spec fn spec_name(&self) -> Seq<char> {
        self.name@
    }

    fn name(&self) -> (r: &str) {
        self.name.as_str()
    }
}

/// The tiers of name matching, tried in this order.
pub enum MatchTier {
    Exact,
    CaseInsensitive,
    Substring,
}

/// Whether a name matches the query within one tier.
pub open spec fn tier_matches(tier: MatchTier, name: Seq<char>, query: Seq<char>) -> bool {
    match tier {
        MatchTier::Exact => name == query,
        MatchTier::CaseInsensitive => spec_to_lowercase(name) == spec_to_lowercase(query),
        MatchTier::Substring => is_substring(spec_to_lowercase(query), spec_to_lowercase(name)),
    }
}

/// Some item matches the query within the tier.
pub open spec fn tier_hit<T: Named>(items: Seq<T>, query: Seq<char>, tier: MatchTier) -> bool {
    exists|i: int| 0 <= i < items.len() && tier_matches(tier, #[trigger] items[i].spec_name(), query)
}

/// The first tier that produces a match (the substring tier when none does).
pub open spec fn chosen_tier<T: Named>(items: Seq<T>, query: Seq<char>) -> MatchTier {
    if tier_hit(items, query, MatchTier::Exact) {
        MatchTier::Exact
    } else if tier_hit(items, query, MatchTier::CaseInsensitive) {
        MatchTier::CaseInsensitive
    } else {
        MatchTier::Substring
    }
}

/// The items matching the query within a tier, in the order they came in.
pub open spec fn tier_results<T: Named>(items: Seq<T>, query: Seq<char>, tier: MatchTier) -> Seq<T> {
    items.filter(|t: T| tier_matches(tier, t.spec_name(), query))
}

/// What `match_by_name` returns: the matches of the first productive tier.
pub open spec fn spec_match_by_name<T: Named>(items: Seq<T>, query: Seq<char>) -> Seq<T> {
    tier_results(items, query, chosen_tier(items, query))
}

/// A filtered sequence is empty exactly when nothing satisfies the predicate.
pub proof fn lemma_filter_empty_iff<A>(s: Seq<A>, p: spec_fn(A) -> bool)
    ensures
        (s.filter(p).len() == 0) <==> !(exists|i: int| 0 <= i < s.len() && #[trigger] p(s[i])),
    decreases s.len(),
{
    reveal(Seq::filter);
    if s.len() > 0 {
        lemma_filter_empty_iff(s.drop_last(), p);
        if exists|i: int| 0 <= i < s.len() && #[trigger] p(s[i]) {
            let i = choose|i: int| 0 <= i < s.len() && #[trigger] p(s[i]);
            if i < s.len() - 1 {
                assert(p(s.drop_last()[i]));
            }
        }
        if exists|i: int| 0 <= i < s.drop_last().len() && #[trigger] p(s.drop_last()[i]) {
            let i = choose|i: int| 0 <= i < s.drop_last().len() && #[trigger] p(s.drop_last()[i]);
            assert(p(s[i]));
        }
    }
}

/// Collects, in order, the items whose name matches the query within `tier`.
fn collect_tier<'a, T: Named>(items: &'a [T], query: &str, tier: MatchTier) -> (r: Vec<&'a T>)
    ensures
        r@.map_values(|x: &T| *x) == tier_results(items@, query@, tier),
{
    let ghost pred = |t: T| tier_matches(tier, t.spec_name(), query@);
    let lower_query = to_lowercase(query);
    let lower_query_chars = chars_of(lower_query.as_str());
    let mut out: Vec<&'a T> = Vec::new();
    let mut i: usize = 0;
    while i < items.len()
        invariant
            i <= items.len(),
            lower_query@ == spec_to_lowercase(query@),
            lower_query_chars@ == lower_query@,
            pred == (|t: T| tier_matches(tier, t.spec_name(), query@)),
            out@.map_values(|x: &T| *x) == items@.subrange(0, i as int).filter(pred),
        decreases items.len() - i,
    {
        let item = &items[i];
        let name = item.name();
        let hit = match tier {
            MatchTier::Exact => str_eq(name, query),
            MatchTier::CaseInsensitive => {
                let lower_name = to_lowercase(name);
                str_eq(lower_name.as_str(), lower_query.as_str())
            },
            MatchTier::Substring => {
                let lower_name = to_lowercase(name);
                let lower_name_chars = chars_of(lower_name.as_str());
                contains_chars(&lower_name_chars, &lower_query_chars)
            },
        };
        assert(hit == pred(items@[i as int]));
        let ghost before = out@;
        if hit {
            out.push(item);
        }
        proof {
            let s = items@.subrange(0, i + 1);
            assert(s.drop_last() =~= items@.subrange(0, i as int));
            assert(s.last() == items@[i as int]);
            reveal(Seq::filter);
            assert(out@.map_values(|x: &T| *x) =~= s.filter(pred));
        }
        i = i + 1;
    }
    assert(items@.subrange(0, items@.len() as int) =~= items@);
    out
}

/// Applies three-tier matching to a collection.
///
/// Returns the items matching in the first tier that produces at least one
/// result, in the order they came in; an empty vector when no tier matches.
pub fn match_by_name<'a, T: Named>(items: &'a [T], query: &str) -> (r: Vec<&'a T>)
    ensures
        r@.map_values(|x: &T| *x) == spec_match_by_name(items@, query@),
{
    let exact = collect_tier(items, query, MatchTier::Exact);
    proof {
        lemma_filter_empty_iff(items@, |t: T| tier_matches(MatchTier::Exact, t.spec_name(), query@));
    }
    if exact.len() > 0 {
        return exact;
    }
    assert(!tier_hit(items@, query@, MatchTier::Exact)) by {
        assert forall|i: int| 0 <= i < items@.len() implies !tier_matches(
            MatchTier::Exact,
            #[trigger] items@[i].spec_name(),
            query@,
        ) by {
            let p = |t: T| tier_matches(MatchTier::Exact, t.spec_name(), query@);
            assert(!p(items@[i]));
        }
    }
    let caseless = collect_tier(items, query, MatchTier::CaseInsensitive);
    proof {
        lemma_filter_empty_iff(
            items@,
            |t: T| tier_matches(MatchTier::CaseInsensitive, t.spec_name(), query@),
        );
    }
    if caseless.len() > 0 {
        return caseless;
    }
    assert(!tier_hit(items@, query@, MatchTier::CaseInsensitive)) by {
        assert forall|i: int| 0 <= i < items@.len() implies !tier_matches(
            MatchTier::CaseInsensitive,
            #[trigger] items@[i].spec_name(),
            query@,
        ) by {
            let p = |t: T| tier_matches(MatchTier::CaseInsensitive, t.spec_name(), query@);
            assert(!p(items@[i]));
        }
    }
    collect_tier(items, query, MatchTier::Substring)
}

} // verus!
