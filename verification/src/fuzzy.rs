//! Fuzzy matching of candidates against a query.
//!
//! A candidate is matched by its primary key and by any number of secondary
//! keys. A match on a secondary key counts nine tenths of its score, so that it
//! never outranks an equal match on a primary key. The best matches come
//! first; candidates with equal scores keep the order in which they were given.

use crate::ranking::{as_ints, ranked, top_ranked};
use nucleo_matcher::pattern::{Atom, AtomKind, CaseMatching, Normalization};
use nucleo_matcher::{Config, Matcher, Utf32Str};
use vstd::prelude::*;
use vstd::string::StringSliceAdditionalSpecFns;

verus! {

/// `nucleo_matcher::Matcher`: the configuration and the scratch space of the
/// scoring algorithm. Nothing inside it is told.
#[verifier::external_type_specification]
#[verifier::external_body]
pub struct ExMatcher(Matcher);

/// The longest query, in bytes, that is scored. A longer one matches nothing:
/// the scores of the algorithm are 16-bit sums that grow with the query.
pub const MAX_QUERY_BYTES: usize = 2048;

/// The longest key, in bytes, that is scored. A longer one matches nothing:
/// the algorithm refuses haystacks beyond this length.
pub const MAX_KEY_BYTES: usize = 0xffff_ffff;

/// The score that `nucleo_matcher` gives to `key` for `query` by fuzzy
/// matching that ignores case, or `None` where it finds no match.
pub uninterp spec fn fuzzy_score(query: Seq<char>, key: Seq<char>) -> Option<u16>;

/// Whether a text is short enough, in bytes, to be handed to the algorithm.
pub open spec fn fits(text: Seq<char>, limit: usize) -> bool {
    vstd::utf8::encode_utf8(text).len() <= limit
}

/// The score of one key: that of the algorithm, within the limits on lengths.
pub open spec fn score_of(query: Seq<char>, key: Seq<char>) -> Option<u16> {
    if fits(query, MAX_QUERY_BYTES) && fits(key, MAX_KEY_BYTES) {
        fuzzy_score(query, key)
    } else {
        None
    }
}

/// Nine tenths of a score, rounded down: what a match on a secondary key
/// counts.
pub open spec fn penalized(score: u16) -> u16 {
    (score as int * 9 / 10) as u16
}

/// The larger of two scores, where either may be missing.
pub open spec fn better(a: Option<u16>, b: Option<u16>) -> Option<u16> {
    match (a, b) {
        (None, _) => b,
        (_, None) => a,
        (Some(x), Some(y)) => if x >= y {
            a
        } else {
            b
        },
    }
}

/// What a match on a secondary key counts, if it matches.
pub open spec fn secondary_score(query: Seq<char>, key: Seq<char>) -> Option<u16> {
    match score_of(query, key) {
        None => None,
        Some(s) => Some(penalized(s)),
    }
}

/// The best of the secondary keys.
pub open spec fn best_secondary(query: Seq<char>, keys: Seq<Seq<char>>) -> Option<u16>
    decreases keys.len(),
{
    if keys.len() == 0 {
        None
    } else {
        better(best_secondary(query, keys.drop_last()), secondary_score(query, keys.last()))
    }
}

/// The score of a candidate: the best of its primary key and its penalized
/// secondary keys, `None` where no key matches.
pub open spec fn candidate_score(
    query: Seq<char>,
    primary: Seq<char>,
    secondary: Seq<Seq<char>>,
) -> Option<u16> {
    better(score_of(query, primary), best_secondary(query, secondary))
}

/// The indices of the candidates that have a score, in the order given.
pub open spec fn hits(scores: Seq<Option<u16>>) -> Seq<int>
    decreases scores.len(),
{
    if scores.len() == 0 {
        Seq::empty()
    } else if scores.last().is_some() {
        hits(scores.drop_last()).push(scores.len() - 1)
    } else {
        hits(scores.drop_last())
    }
}

/// The scores of the candidates that have one, in the order given.
pub open spec fn hit_keys(scores: Seq<Option<u16>>) -> Seq<i64> {
    Seq::new(hits(scores).len(), |j: int| scores[hits(scores)[j]].unwrap() as i64)
}

/// How many matches are returned: all of them, up to `max_results`.
pub open spec fn match_count(scores: Seq<Option<u16>>, max_results: usize) -> int {
    if max_results <= hits(scores).len() {
        max_results as int
    } else {
        hits(scores).len() as int
    }
}

/// The candidates that are returned, as indices: those with a score, the
/// highest score first, equal scores in the order given, `max_results` at most.
pub open spec fn best_matches(scores: Seq<Option<u16>>, max_results: usize) -> Seq<int> {
    Seq::new(
        match_count(scores, max_results) as nat,
        |j: int| hits(scores)[ranked(hit_keys(scores))[j]],
    )
}

/// The keys by which one candidate is found.
pub struct SearchKeys {
    pub primary: String,
    pub secondary: Vec<String>,
}

impl SearchKeys {
    /// The secondary keys as texts.
    pub open spec fn secondary_texts(&self) -> Seq<Seq<char>> {
        Seq::new(self.secondary@.len(), |i: int| self.secondary@[i]@)
    }

    /// The score of the candidate with these keys.
    pub open spec fn score(&self, query: Seq<char>) -> Option<u16> {
        candidate_score(query, self.primary@, self.secondary_texts())
    }
}

/// The scores of a list of candidates, given by their keys.
pub open spec fn key_scores(query: Seq<char>, keys: Seq<SearchKeys>) -> Seq<Option<u16>> {
    Seq::new(keys.len(), |i: int| keys[i].score(query))
}

/// The scores of a list of texts, each its own only key.
pub open spec fn text_scores(query: Seq<char>, texts: Seq<String>) -> Seq<Option<u16>> {
    Seq::new(texts.len(), |i: int| score_of(query, texts[i]@))
}

/// Whether `matches` are the items that the ranking picks from `candidates`
/// for a query, where `keys` holds the keys of each candidate: the candidates
/// with a score, the highest score first, equal scores in the order given,
/// `max_results` at most.
pub open spec fn picked_for<T>(
    query: Seq<char>,
    keys: Seq<SearchKeys>,
    candidates: Seq<T>,
    max_results: usize,
    matches: Seq<&T>,
) -> bool {
    let best = best_matches(key_scores(query, keys), max_results);
    &&& keys.len() == candidates.len()
    &&& matches.len() == best.len()
    &&& forall|j: int|
        0 <= j < matches.len() ==> 0 <= best[j] < candidates.len() && *#[trigger] matches[j]
            == candidates[best[j]]
}

/// Whether each set of keys is that of the candidate at the same position.
pub open spec fn keys_of<T: FuzzySearchable>(candidates: Seq<T>, keys: Seq<SearchKeys>) -> bool {
    &&& keys.len() == candidates.len()
    &&& forall|i: int|
        0 <= i < keys.len() ==> {
            &&& candidates[i].has_primary((#[trigger] keys[i]).primary@)
            &&& candidates[i].has_secondary(keys[i].secondary_texts())
        }
}

/// A type whose values can be searched by fuzzy matching.
///
/// A type says which keys its values have by the predicates of this trait. A
/// type that says nothing leaves every key open.
pub trait FuzzySearchable {
    /// Whether a text is the primary key of the value.
    open spec fn has_primary(&self, key: Seq<char>) -> bool {
        true
    }

    /// Whether a list of texts is the list of the value's secondary keys.
    open spec fn has_secondary(&self, keys: Seq<Seq<char>>) -> bool {
        true
    }

    /// The key that counts in full.
    fn primary_key(&self) -> (key: String)
        ensures
            self.has_primary(key@),
    ;

    /// Further keys, which count nine tenths.
    fn secondary_keys(&self) -> (keys: Vec<String>)
        ensures
            self.has_secondary(Seq::new(keys@.len(), |i: int| keys@[i]@)),
    ;
}

/// Every index that `hits` lists is one of a candidate with a score, and they
/// grow.
pub proof fn lemma_hits(scores: Seq<Option<u16>>)
    ensures
        hits(scores).len() <= scores.len(),
        forall|j: int|
            0 <= j < hits(scores).len() ==> 0 <= #[trigger] hits(scores)[j] < scores.len()
                && scores[hits(scores)[j]].is_some(),
        forall|a: int, b: int|
            0 <= a < b < hits(scores).len() ==> #[trigger] hits(scores)[a] < #[trigger] hits(
                scores,
            )[b],
        forall|i: int|
            0 <= i < scores.len() && scores[i].is_some() ==> hits(scores).contains(i),
    decreases scores.len(),
{
    if scores.len() > 0 {
        let shorter = scores.drop_last();
        lemma_hits(shorter);
        let h = hits(scores);
        let hs = hits(shorter);
        assert forall|j: int| 0 <= j < h.len() implies 0 <= #[trigger] h[j] < scores.len()
            && scores[h[j]].is_some() by {
            if j < hs.len() {
                assert(h[j] == hs[j]);
                assert(shorter[hs[j]] == scores[hs[j]]);
            }
        }
        assert forall|a: int, b: int| 0 <= a < b < h.len() implies #[trigger] h[a]
            < #[trigger] h[b] by {
            assert(h[a] == hs[a]);
            if b < hs.len() {
                assert(h[b] == hs[b]);
            }
        }
        assert forall|i: int| 0 <= i < scores.len() && scores[i].is_some() implies h.contains(
            i,
        ) by {
            if i < shorter.len() {
                assert(shorter[i] == scores[i]);
                assert(hs.contains(i));
                let j = choose|j: int| 0 <= j < hs.len() && hs[j] == i;
                assert(h[j] == i);
            } else {
                assert(h[h.len() - 1] == i);
            }
        }
    }
}

/// The matches that are returned are candidates with a score, none twice,
/// never more than `max_results`, and their scores never grow.
pub proof fn lemma_best_matches(scores: Seq<Option<u16>>, max_results: usize)
    ensures
        best_matches(scores, max_results).len() <= max_results,
        best_matches(scores, max_results).len() <= scores.len(),
        forall|j: int|
            0 <= j < best_matches(scores, max_results).len() ==> 0 <= #[trigger] best_matches(
                scores,
                max_results,
            )[j] < scores.len() && scores[best_matches(scores, max_results)[j]].is_some(),
        best_matches(scores, max_results).no_duplicates(),
        forall|a: int, b: int|
            0 <= a < b < best_matches(scores, max_results).len() ==> scores[#[trigger] best_matches(
                scores,
                max_results,
            )[a]].unwrap() >= scores[#[trigger] best_matches(scores, max_results)[b]].unwrap(),
{
    let best = best_matches(scores, max_results);
    let h = hits(scores);
    let keys = hit_keys(scores);
    let order = ranked(keys);
    lemma_hits(scores);
    crate::ranking::lemma_ranked_is_permutation(keys);
    crate::ranking::lemma_ranked_descending(keys);
    assert forall|j: int| 0 <= j < best.len() implies 0 <= #[trigger] best[j] < scores.len()
        && scores[best[j]].is_some() by {
        assert(0 <= order[j] < keys.len());
    }
    assert forall|a: int, b: int| 0 <= a < best.len() && 0 <= b < best.len() && a != b implies best[a]
        != best[b] by {
        assert(0 <= order[a] < keys.len());
        assert(0 <= order[b] < keys.len());
        assert(order[a] != order[b]);
        if order[a] < order[b] {
            assert(h[order[a]] < h[order[b]]);
        } else {
            assert(h[order[b]] < h[order[a]]);
        }
    }
    assert forall|a: int, b: int| 0 <= a < b < best.len() implies scores[#[trigger] best[a]].unwrap()
        >= scores[#[trigger] best[b]].unwrap() by {
        assert(0 <= order[a] < keys.len());
        assert(0 <= order[b] < keys.len());
        assert(keys[order[a]] >= keys[order[b]]);
    }
}

/// Of two candidates with a score, the one with the higher score is returned
/// first, if the other is returned at all; with equal scores, the one given
/// first.
pub proof fn lemma_better_match_comes_first(
    scores: Seq<Option<u16>>,
    max_results: usize,
    a: int,
    b: int,
)
    requires
        0 <= a < best_matches(scores, max_results).len(),
        0 <= b < best_matches(scores, max_results).len(),
        a < b,
    ensures
        ({
            let first = best_matches(scores, max_results)[a];
            let second = best_matches(scores, max_results)[b];
            scores[first].unwrap() > scores[second].unwrap() || (scores[first].unwrap()
                == scores[second].unwrap() && first < second)
        }),
{
    let h = hits(scores);
    let keys = hit_keys(scores);
    let order = ranked(keys);
    lemma_hits(scores);
    crate::ranking::lemma_ranked_is_permutation(keys);
    crate::ranking::lemma_ranked_descending(keys);
    crate::ranking::lemma_ranked_stable(keys);
    assert(0 <= order[a] < keys.len());
    assert(0 <= order[b] < keys.len());
    assert(keys[order[a]] >= keys[order[b]]);
    if keys[order[a]] == keys[order[b]] {
        assert(order[a] < order[b]);
        assert(h[order[a]] < h[order[b]]);
    }
}

/// Nine tenths of a score, rounded down.
pub fn penalize(score: u16) -> (r: u16)
    ensures
        r == penalized(score),
        r <= score,
{
    let wide: u32 = score as u32;
    (wide * 9 / 10) as u16
}

/// The larger of two scores, where either may be missing.
pub fn pick_better(a: Option<u16>, b: Option<u16>) -> (r: Option<u16>)
    ensures
        r == better(a, b),
{
    match (a, b) {
        (None, _) => b,
        (_, None) => a,
        (Some(x), Some(y)) => if x >= y {
            a
        } else {
            b
        },
    }
}

/// Makes the scratch space of the scoring algorithm by
/// `nucleo_matcher::Matcher::new`, with the configuration that the crate calls
/// its default. Nothing is claimed of it.
#[verifier::external_body]
fn new_matcher() -> Matcher {
    Matcher::new(Config::DEFAULT)
}

/// Scores `key` for `query` by `nucleo_matcher::pattern::Atom::score`, with an
/// atom made by `Atom::new` for fuzzy matching that ignores case, and the key
/// handed over character by character as `Utf32Str::new` reads it. The claim
/// is that the score depends on the two texts alone: the configuration is set
/// to the crate's default before the call, and the scratch space carries
/// nothing from one call to the next. Left out are the lengths at which the
/// algorithm's 16-bit sums may overflow or at which it refuses the key.
#[verifier::external_body]
fn score_with(matcher: &mut Matcher, query: &str, key: &str) -> (score: Option<u16>)
    requires
        fits(query@, MAX_QUERY_BYTES),
        fits(key@, MAX_KEY_BYTES),
    ensures
        score == fuzzy_score(query@, key@),
{
    matcher.config = Config::DEFAULT;
    let atom = Atom::new(query, CaseMatching::Ignore, Normalization::Smart, AtomKind::Fuzzy, false);
    let mut buffer = Vec::new();
    atom.score(Utf32Str::new(key, &mut buffer), matcher)
}

/// Ranks candidates against a query by fuzzy matching.
pub struct FuzzyMatcher {
    matcher: Matcher,
}

impl FuzzyMatcher {
    /// A matcher with the default configuration.
    pub fn new() -> (r: Self) {
        FuzzyMatcher { matcher: new_matcher() }
    }

    /// The score of one key for a query.
    pub fn score_key(&mut self, query: &str, key: &str) -> (score: Option<u16>)
        ensures
            score == score_of(query@, key@),
    {
        if query.as_bytes().len() <= MAX_QUERY_BYTES && key.as_bytes().len() <= MAX_KEY_BYTES {
            score_with(&mut self.matcher, query, key)
        } else {
            None
        }
    }

    /// The score of one candidate: the best of its primary key and its
    /// penalized secondary keys.
    pub fn score_candidate(&mut self, query: &str, keys: &SearchKeys) -> (score: Option<u16>)
        ensures
            score == keys.score(query@),
    {
        let primary = self.score_key(query, keys.primary.as_str());
        let mut best: Option<u16> = None;
        let mut j: usize = 0;
        while j < keys.secondary.len()
            invariant
                0 <= j <= keys.secondary@.len(),
                best == best_secondary(query@, keys.secondary_texts().take(j as int)),
            decreases keys.secondary@.len() - j,
        {
            let found = self.score_key(query, keys.secondary[j].as_str());
            let counted = match found {
                None => None,
                Some(s) => Some(penalize(s)),
            };
            proof {
                let shown = keys.secondary_texts().take(j + 1);
                assert(shown.drop_last() == keys.secondary_texts().take(j as int));
                assert(shown.last() == keys.secondary@[j as int]@);
            }
            best = pick_better(best, counted);
            j = j + 1;
        }
        proof {
            assert(keys.secondary_texts().take(j as int) == keys.secondary_texts());
        }
        pick_better(primary, best)
    }

    /// Picks the best matches from scores that are already known: the indices
    /// of the candidates with a score, the highest score first, equal scores
    /// in the order given, `max_results` at most.
    pub fn pick_best(scores: &Vec<Option<u16>>, max_results: usize) -> (picked: Vec<usize>)
        ensures
            as_ints(picked@) == best_matches(scores@, max_results),
            forall|j: int| 0 <= j < picked@.len() ==> #[trigger] picked@[j] < scores@.len(),
    {
        let mut found: Vec<usize> = Vec::new();
        let mut keys: Vec<i64> = Vec::new();
        let mut i: usize = 0;
        while i < scores.len()
            invariant
                0 <= i <= scores@.len(),
                as_ints(found@) == hits(scores@.take(i as int)),
                keys@ == hit_keys(scores@.take(i as int)),
                keys@.len() == found@.len(),
                forall|j: int| 0 <= j < found@.len() ==> #[trigger] found@[j] < i,
            decreases scores@.len() - i,
        {
            proof {
                let shown = scores@.take(i + 1);
                assert(shown.drop_last() == scores@.take(i as int));
                assert(shown.last() == scores@[i as int]);
                lemma_hits(scores@.take(i as int));
            }
            match scores[i] {
                Some(s) => {
                    found.push(i);
                    keys.push(s as i64);
                    proof {
                        let shown = scores@.take(i + 1);
                        let before = scores@.take(i as int);
                        assert(as_ints(found@) =~= hits(shown));
                        assert forall|j: int| 0 <= j < keys@.len() implies keys@[j] == hit_keys(
                            shown,
                        )[j] by {
                            if j < keys@.len() - 1 {
                                assert(hits(shown)[j] == hits(before)[j]);
                                assert(hit_keys(before)[j] == before[hits(before)[j]].unwrap() as i64);
                                assert(before[hits(before)[j]] == shown[hits(before)[j]]);
                            }
                        }
                        assert(keys@ =~= hit_keys(shown));
                    }
                },
                None => {
                    proof {
                        let shown = scores@.take(i + 1);
                        let before = scores@.take(i as int);
                        assert forall|j: int| 0 <= j < keys@.len() implies keys@[j] == hit_keys(
                            shown,
                        )[j] by {
                            assert(hit_keys(before)[j] == before[hits(before)[j]].unwrap() as i64);
                            assert(before[hits(before)[j]] == shown[hits(before)[j]]);
                        }
                        assert(keys@ =~= hit_keys(shown));
                    }
                },
            }
            i = i + 1;
        }
        proof {
            assert(scores@.take(i as int) == scores@);
        }
        let order = top_ranked(&keys, max_results);
        proof {
            crate::ranking::lemma_ranked_is_permutation(keys@);
        }
        let mut picked: Vec<usize> = Vec::new();
        let mut j: usize = 0;
        while j < order.len()
            invariant
                0 <= j <= order@.len(),
                order@.len() == match_count(scores@, max_results),
                as_ints(order@) == ranked(keys@).take(order@.len() as int),
                ranked(keys@).len() == keys@.len(),
                forall|t: int| 0 <= t < order@.len() ==> #[trigger] order@[t] < keys@.len(),
                keys@ == hit_keys(scores@),
                keys@.len() == found@.len(),
                as_ints(found@) == hits(scores@),
                forall|t: int| 0 <= t < found@.len() ==> #[trigger] found@[t] < scores@.len(),
                picked@.len() == j,
                forall|t: int|
                    0 <= t < j ==> #[trigger] picked@[t] as int == best_matches(
                        scores@,
                        max_results,
                    )[t],
                forall|t: int| 0 <= t < j ==> #[trigger] picked@[t] < scores@.len(),
            decreases order@.len() - j,
        {
            let at: usize = order[j];
            proof {
                assert(as_ints(order@)[j as int] == ranked(keys@)[j as int]);
                assert(as_ints(found@)[at as int] == hits(scores@)[at as int]);
            }
            picked.push(found[at]);
            j = j + 1;
        }
        proof {
            assert(as_ints(picked@) =~= best_matches(scores@, max_results));
        }
        picked
    }

    /// Ranks candidates that are given by their keys. An empty query matches
    /// nothing.
    pub fn match_keys(&mut self, query: &str, keys: &Vec<SearchKeys>, max_results: usize) -> (picked:
        Vec<usize>)
        ensures
            query@.len() == 0 ==> picked@.len() == 0,
            query@.len() > 0 ==> as_ints(picked@) == best_matches(
                key_scores(query@, keys@),
                max_results,
            ),
            forall|j: int| 0 <= j < picked@.len() ==> #[trigger] picked@[j] < keys@.len(),
    {
        if query.is_empty() {
            return Vec::new();
        }
        let mut scores: Vec<Option<u16>> = Vec::new();
        let mut i: usize = 0;
        while i < keys.len()
            invariant
                0 <= i <= keys@.len(),
                scores@.len() == i,
                forall|t: int| 0 <= t < i ==> #[trigger] scores@[t] == keys@[t].score(query@),
            decreases keys@.len() - i,
        {
            let score = self.score_candidate(query, &keys[i]);
            scores.push(score);
            i = i + 1;
        }
        proof {
            assert(scores@ =~= key_scores(query@, keys@));
        }
        Self::pick_best(&scores, max_results)
    }

    /// Matches a query against a list of texts, and returns the best matches
    /// with their scores, the best first. An empty query matches nothing.
    pub fn match_strings(&mut self, query: &str, candidates: &[String], max_results: usize) -> (matches:
        Vec<(u16, String)>)
        ensures
            query@.len() == 0 ==> matches@.len() == 0,
            query@.len() > 0 ==> {
                let scores = text_scores(query@, candidates@);
                let best = best_matches(scores, max_results);
                &&& matches@.len() == best.len()
                &&& forall|j: int|
                    0 <= j < matches@.len() ==> (#[trigger] matches@[j]).0 == scores[best[j]].unwrap()
                        && matches@[j].1@ == candidates@[best[j]]@
            },
    {
        if query.is_empty() {
            return Vec::new();
        }
        let mut scores: Vec<Option<u16>> = Vec::new();
        let mut i: usize = 0;
        while i < candidates.len()
            invariant
                0 <= i <= candidates@.len(),
                scores@.len() == i,
                forall|t: int| 0 <= t < i ==> #[trigger] scores@[t] == score_of(query@, candidates@[t]@),
            decreases candidates@.len() - i,
        {
            let score = self.score_key(query, candidates[i].as_str());
            scores.push(score);
            i = i + 1;
        }
        proof {
            assert(scores@ =~= text_scores(query@, candidates@));
            lemma_best_matches(scores@, max_results);
        }
        let picked = Self::pick_best(&scores, max_results);
        let mut matches: Vec<(u16, String)> = Vec::new();
        let mut j: usize = 0;
        while j < picked.len()
            invariant
                0 <= j <= picked@.len(),
                scores@ == text_scores(query@, candidates@),
                scores@.len() == candidates@.len(),
                as_ints(picked@) == best_matches(scores@, max_results),
                forall|t: int| 0 <= t < picked@.len() ==> #[trigger] picked@[t] < scores@.len(),
                forall|t: int|
                    0 <= t < picked@.len() ==> scores@[#[trigger] best_matches(
                        scores@,
                        max_results,
                    )[t]].is_some(),
                matches@.len() == j,
                forall|t: int|
                    0 <= t < j ==> (#[trigger] matches@[t]).0 == scores@[best_matches(
                        scores@,
                        max_results,
                    )[t]].unwrap() && matches@[t].1@ == candidates@[best_matches(
                        scores@,
                        max_results,
                    )[t]]@,
            decreases picked@.len() - j,
        {
            let at: usize = picked[j];
            proof {
                assert(as_ints(picked@)[j as int] == best_matches(scores@, max_results)[j as int]);
            }
            match scores[at] {
                Some(s) => {
                    matches.push((s, candidates[at].clone()));
                },
                None => {
                    proof {
                        assert(false);
                    }
                },
            }
            j = j + 1;
        }
        matches
    }

    /// Matches a query against a list of searchable items, and returns the
    /// best matches, the best first. An empty query matches nothing.
    ///
    /// Each item is asked for its keys once, in the order given. The items
    /// returned are those that the ranking picks for the keys of the items:
    /// the items with a score, the highest score first, equal scores in the
    /// order given, `max_results` at most.
    pub fn match_items<'a, T: FuzzySearchable>(
        &mut self,
        query: &str,
        candidates: &'a [T],
        max_results: usize,
    ) -> (matches: Vec<&'a T>)
        ensures
            query@.len() == 0 ==> matches@.len() == 0,
            query@.len() > 0 ==> exists|keys: Seq<SearchKeys>|
                keys_of(candidates@, keys) && #[trigger] picked_for(
                    query@,
                    keys,
                    candidates@,
                    max_results,
                    matches@,
                ),
            matches@.len() <= max_results,
            matches@.len() <= candidates@.len(),
            forall|j: int| 0 <= j < matches@.len() ==> candidates@.contains(*#[trigger] matches@[j]),
    {
        if query.is_empty() {
            return Vec::new();
        }
        let mut keys: Vec<SearchKeys> = Vec::new();
        let mut i: usize = 0;
        while i < candidates.len()
            invariant
                0 <= i <= candidates@.len(),
                keys@.len() == i,
                forall|t: int|
                    0 <= t < i ==> {
                        &&& candidates@[t].has_primary((#[trigger] keys@[t]).primary@)
                        &&& candidates@[t].has_secondary(keys@[t].secondary_texts())
                    },
            decreases candidates@.len() - i,
        {
            let primary = candidates[i].primary_key();
            let secondary = candidates[i].secondary_keys();
            let made = SearchKeys { primary, secondary };
            proof {
                assert(made.secondary_texts() =~= Seq::new(
                    secondary@.len(),
                    |i: int| secondary@[i]@,
                ));
            }
            keys.push(made);
            i = i + 1;
        }
        let picked = self.match_keys(query, &keys, max_results);
        let ghost best = best_matches(key_scores(query@, keys@), max_results);
        proof {
            lemma_best_matches(key_scores(query@, keys@), max_results);
            assert(as_ints(picked@).len() == picked@.len());
        }
        let mut matches: Vec<&'a T> = Vec::new();
        let mut j: usize = 0;
        while j < picked.len()
            invariant
                0 <= j <= picked@.len(),
                keys@.len() == candidates@.len(),
                as_ints(picked@) == best,
                forall|t: int| 0 <= t < picked@.len() ==> #[trigger] picked@[t] < keys@.len(),
                matches@.len() == j,
                forall|t: int| 0 <= t < j ==> *#[trigger] matches@[t] == candidates@[best[t]],
                forall|t: int| 0 <= t < j ==> candidates@.contains(*#[trigger] matches@[t]),
            decreases picked@.len() - j,
        {
            let at: usize = picked[j];
            matches.push(&candidates[at]);
            proof {
                assert(as_ints(picked@)[j as int] == at as int);
                assert(*matches@[j as int] == candidates@[at as int]);
            }
            j = j + 1;
        }
        proof {
            assert(keys_of(candidates@, keys@));
            assert(picked_for(query@, keys@, candidates@, max_results, matches@));
        }
        matches
    }
}

} // verus!
