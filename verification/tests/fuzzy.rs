use waycast::drun::DesktopEntry;
use waycast::fuzzy::{FuzzyMatcher, FuzzySearchable, SearchKeys};
use waycast::ranking::top_ranked;

struct Named {
    primary: &'static str,
    secondary: Vec<&'static str>,
}

impl FuzzySearchable for Named {
    fn primary_key(&self) -> String {
        self.primary.to_string()
    }

    fn secondary_keys(&self) -> Vec<String> {
        let mut keys = Vec::new();
        for k in &self.secondary {
            keys.push(k.to_string());
        }
        keys
    }
}

fn named(primary: &'static str) -> Named {
    Named { primary, secondary: Vec::new() }
}

fn app(name: &str) -> DesktopEntry {
    DesktopEntry {
        id: format!("{}.desktop", name),
        name: name.to_string(),
        description: None,
        icon: "icon".to_string(),
        path: format!("/usr/share/applications/{}.desktop", name),
    }
}

fn primaries(found: Vec<&Named>) -> Vec<&'static str> {
    let mut all = Vec::new();
    for n in found {
        all.push(n.primary);
    }
    all
}

#[test]
fn fuzzy_ranking_of_fire() {
    let candidates = vec![named("firefox"), named("file manager"), named("calculator")];
    let mut matcher = FuzzyMatcher::new();
    let found = primaries(matcher.match_items("fire", &candidates, 10));
    assert_eq!(found[0], "firefox");
    assert!(!found.contains(&"calculator"));
    let firefox = found.iter().position(|n| *n == "firefox");
    let manager = found.iter().position(|n| *n == "file manager");
    if let Some(at) = manager {
        assert!(firefox.unwrap() < at);
    }
}

#[test]
fn fuzzy_ranking_puts_the_better_match_first() {
    let candidates = vec![named("file manager"), named("calculator"), named("firefox")];
    let mut matcher = FuzzyMatcher::new();
    // Both match "fi" equally well at their start, so the order given is kept.
    assert_eq!(
        primaries(matcher.match_items("fi", &candidates, 10)),
        vec!["file manager", "firefox"]
    );
    // "fm" stands at the starts of the words of one, and nowhere in the others.
    assert_eq!(primaries(matcher.match_items("fm", &candidates, 10)), vec!["file manager"]);
    // A match at a word start beats one inside a word.
    let four = vec![named("xfirex"), named("fire")];
    assert_eq!(primaries(matcher.match_items("fire", &four, 10)), vec!["fire", "xfirex"]);
}

#[test]
fn match_items_on_library_entries() {
    let entries = vec![app("Files"), app("Firefox"), app("Calculator")];
    let mut matcher = FuzzyMatcher::new();
    let found = matcher.match_items("fire", &entries, 5);
    assert_eq!(found.len(), 1);
    assert_eq!(found[0].name, "Firefox");
}

#[test]
fn empty_query_matches_nothing() {
    let candidates = vec![named("firefox")];
    let texts = vec!["firefox".to_string()];
    let keys = vec![SearchKeys { primary: "firefox".to_string(), secondary: Vec::new() }];
    let mut matcher = FuzzyMatcher::new();
    assert!(matcher.match_items("", &candidates, 10).is_empty());
    assert!(matcher.match_strings("", &texts, 10).is_empty());
    assert!(matcher.match_keys("", &keys, 10).is_empty());
}

#[test]
fn zero_results_asked_gives_none() {
    let candidates = vec![named("firefox")];
    let mut matcher = FuzzyMatcher::new();
    assert!(matcher.match_items("fire", &candidates, 0).is_empty());
}

#[test]
fn results_are_cut_at_max_results() {
    let candidates = vec![named("aa"), named("ab"), named("ac"), named("ad")];
    let mut matcher = FuzzyMatcher::new();
    assert_eq!(primaries(matcher.match_items("a", &candidates, 2)), vec!["aa", "ab"]);
    assert_eq!(matcher.match_items("a", &candidates, 10).len(), 4);
}

#[test]
fn score_of_a_documented_match() {
    let mut matcher = FuzzyMatcher::new();
    assert_eq!(matcher.score_key("foo bar", "foo bar"), Some(192));
    assert_eq!(matcher.score_key("foo bar", "foobar"), None);
    // The score belongs to the two texts, whatever was scored before.
    assert_eq!(matcher.score_key("foo bar", "foo bar"), Some(192));
}

#[test]
fn matching_ignores_case() {
    let mut matcher = FuzzyMatcher::new();
    let lower = matcher.score_key("fire", "firefox");
    assert!(lower.is_some());
    assert_eq!(matcher.score_key("FIRE", "firefox"), lower);
    assert_eq!(matcher.score_key("fire", "FIREFOX"), lower);
    assert_eq!(matcher.score_key("fire", "calculator"), None);
}

#[test]
fn match_strings_returns_scores_best_first() {
    let texts = vec!["foobar".to_string(), "foo bar".to_string(), "xfoo barx".to_string()];
    let mut matcher = FuzzyMatcher::new();
    let found = matcher.match_strings("foo bar", &texts, 10);
    assert_eq!(found.len(), 2);
    assert_eq!(found[0], (192, "foo bar".to_string()));
    assert_eq!(found[1].1, "xfoo barx");
    assert!(found[1].0 < 192);
    let one = matcher.match_strings("foo bar", &texts, 1);
    assert_eq!(one, vec![(192, "foo bar".to_string())]);
}

#[test]
fn a_secondary_key_counts_nine_tenths() {
    let mut matcher = FuzzyMatcher::new();
    let full = matcher.score_key("foo bar", "foo bar").unwrap();
    let by_secondary =
        SearchKeys { primary: "nothing".to_string(), secondary: vec!["foo bar".to_string()] };
    assert_eq!(matcher.score_candidate("foo bar", &by_secondary), Some(172));
    assert_eq!(waycast::fuzzy::penalize(full), 172);
    let by_both =
        SearchKeys { primary: "foo bar".to_string(), secondary: vec!["foo bar".to_string()] };
    assert_eq!(matcher.score_candidate("foo bar", &by_both), Some(192));
    let by_none = SearchKeys { primary: "x".to_string(), secondary: vec!["y".to_string()] };
    assert_eq!(matcher.score_candidate("foo bar", &by_none), None);
}

#[test]
fn an_equal_match_on_a_secondary_key_never_outranks_the_primary() {
    let candidates = vec![
        Named { primary: "zzz", secondary: vec!["foo bar"] },
        Named { primary: "foo bar", secondary: vec![] },
    ];
    let mut matcher = FuzzyMatcher::new();
    assert_eq!(primaries(matcher.match_items("foo bar", &candidates, 10)), vec!["foo bar", "zzz"]);
}

#[test]
fn the_penalty_is_nine_tenths_rounded_down_for_every_score() {
    let mut score: u32 = 0;
    while score <= u16::MAX as u32 {
        let s = score as u16;
        let as_float = (s as f32 * 0.9) as u16;
        assert_eq!(waycast::fuzzy::penalize(s), as_float);
        score += 1;
    }
    assert_eq!(waycast::fuzzy::penalize(0), 0);
    assert_eq!(waycast::fuzzy::penalize(9), 8);
    assert_eq!(waycast::fuzzy::penalize(10), 9);
    assert_eq!(waycast::fuzzy::penalize(192), 172);
    assert_eq!(waycast::fuzzy::penalize(u16::MAX), 58981);
}

#[test]
fn a_query_beyond_the_length_limit_matches_nothing() {
    let long = "a".repeat(waycast::fuzzy::MAX_QUERY_BYTES + 1);
    let at_limit = "a".repeat(waycast::fuzzy::MAX_QUERY_BYTES);
    let key = "a".repeat(waycast::fuzzy::MAX_QUERY_BYTES + 10);
    let mut matcher = FuzzyMatcher::new();
    assert_eq!(matcher.score_key(&long, &key), None);
    assert!(matcher.score_key(&at_limit, &key).is_some());
}

#[test]
fn pick_best_ranks_by_score_and_keeps_ties_in_order() {
    let scores = vec![Some(5), None, Some(9), Some(5), None, Some(7)];
    assert_eq!(FuzzyMatcher::pick_best(&scores, 10), vec![2, 5, 0, 3]);
    assert_eq!(FuzzyMatcher::pick_best(&scores, 3), vec![2, 5, 0]);
    assert_eq!(FuzzyMatcher::pick_best(&scores, 0), Vec::<usize>::new());
    assert_eq!(FuzzyMatcher::pick_best(&Vec::new(), 3), Vec::<usize>::new());
}

#[test]
fn pick_better_takes_the_larger_score() {
    assert_eq!(waycast::fuzzy::pick_better(None, None), None);
    assert_eq!(waycast::fuzzy::pick_better(Some(3), None), Some(3));
    assert_eq!(waycast::fuzzy::pick_better(None, Some(4)), Some(4));
    assert_eq!(waycast::fuzzy::pick_better(Some(3), Some(4)), Some(4));
    assert_eq!(waycast::fuzzy::pick_better(Some(4), Some(3)), Some(4));
}

#[test]
fn top_ranked_is_a_stable_ranking_largest_first() {
    assert_eq!(top_ranked(&vec![3, 1, 3, 2, 9, 1], 6), vec![4, 0, 2, 3, 1, 5]);
    assert_eq!(top_ranked(&vec![3, 1, 3, 2, 9, 1], 2), vec![4, 0]);
    assert_eq!(top_ranked(&vec![3, 1, 3, 2, 9, 1], 100), vec![4, 0, 2, 3, 1, 5]);
    assert_eq!(top_ranked(&vec![1, 2, 3], 0), Vec::<usize>::new());
    assert_eq!(top_ranked(&Vec::new(), 5), Vec::<usize>::new());
    assert_eq!(top_ranked(&vec![-5, i64::MAX, i64::MIN, 0], 4), vec![1, 3, 0, 2]);
    assert_eq!(top_ranked(&vec![7, 7, 7], 3), vec![0, 1, 2]);
}

#[test]
fn texts_beyond_ascii_are_matched_by_their_characters() {
    let mut matcher = FuzzyMatcher::new();
    assert!(matcher.score_key("é", "café").is_some());
    assert!(matcher.score_key("café", "café").is_some());
    assert!(matcher.score_key("café", "CAFÉ").is_some());
    assert!(matcher.score_key("caf", "café").is_some());
    // A plain letter finds the letter with its accent.
    assert!(matcher.score_key("cafe", "café").is_some());
    assert!(matcher.score_key("x", "日本語x").is_some());
    assert!(matcher.score_key("本", "日本語").is_some());
    assert_eq!(matcher.score_key("x", "日本語"), None);
    assert_eq!(matcher.score_key("a", ""), None);
    // A key of plain letters scores the same whichever way it is read.
    assert_eq!(matcher.score_key("foo bar", "foo bar"), Some(192));
    let candidates = vec![named("Füße"), named("naïve café"), named("日本語")];
    assert_eq!(primaries(matcher.match_items("caf", &candidates, 10)), vec!["naïve café"]);
    assert_eq!(primaries(matcher.match_items("ü", &candidates, 10)), vec!["Füße"]);
    assert_eq!(primaries(matcher.match_items("語", &candidates, 10)), vec!["日本語"]);
}

#[test]
fn the_longest_query_scores_within_sixteen_bits() {
    let mut matcher = FuzzyMatcher::new();
    let query = "a".repeat(waycast::fuzzy::MAX_QUERY_BYTES);
    let same = matcher.score_key(&query, &query);
    assert!(same.is_some());
    let spaced = format!(" {}", query);
    assert!(matcher.score_key(&query, &spaced).is_some());
    let words = "a ".repeat(waycast::fuzzy::MAX_QUERY_BYTES);
    assert!(matcher.score_key(&query, &words).is_some());
    let upper = "A".repeat(waycast::fuzzy::MAX_QUERY_BYTES);
    assert!(matcher.score_key(&upper, &words).is_some());
}
