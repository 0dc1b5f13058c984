//! The languages of a project, ranked by their share of the code.

use crate::ranking::{as_ints, ranked, top_ranked};
use crate::text::{holds, list_holds};
use vstd::prelude::*;

verus! {

/// What was counted of one language in a project.
#[derive(Debug, Clone)]
pub struct LanguageStat {
    pub name: String,
    /// Lines of code in this language.
    pub code: u32,
}

/// One language of a project, with its share of the code: `code` lines of
/// `total`.
#[derive(Debug, Clone)]
pub struct ProjectLanguage {
    pub name: String,
    pub code: u32,
    /// Lines of code in all languages, those that are not ranked included.
    pub total: u64,
}

/// The lines of code of all languages together.
pub open spec fn sum_code(stats: Seq<LanguageStat>) -> nat
    decreases stats.len(),
{
    if stats.len() == 0 {
        0
    } else {
        sum_code(stats.drop_last()) + stats.last().code as nat
    }
}

/// The lines of code of all languages together, as far as 64 bits count.
pub open spec fn total_of(stats: Seq<LanguageStat>) -> u64 {
    if sum_code(stats) <= u64::MAX {
        sum_code(stats) as u64
    } else {
        u64::MAX
    }
}

/// The positions of the languages that are ranked: those whose names are
/// not ignored, in the order given.
pub open spec fn kept(stats: Seq<LanguageStat>, ignored: Seq<String>) -> Seq<int>
    decreases stats.len(),
{
    if stats.len() == 0 {
        Seq::empty()
    } else if holds(ignored, stats.last().name@) {
        kept(stats.drop_last(), ignored)
    } else {
        kept(stats.drop_last(), ignored).push(stats.len() - 1)
    }
}

/// The lines of code of the languages that are ranked.
pub open spec fn kept_keys(stats: Seq<LanguageStat>, ignored: Seq<String>) -> Seq<i64> {
    Seq::new(kept(stats, ignored).len(), |j: int| stats[kept(stats, ignored)[j]].code as i64)
}

/// How many languages are returned: all that are ranked, up to the limit.
pub open spec fn row_count(
    stats: Seq<LanguageStat>,
    ignored: Seq<String>,
    limit: Option<usize>,
) -> int {
    match limit {
        Some(l) => if l <= kept(stats, ignored).len() {
            l as int
        } else {
            kept(stats, ignored).len() as int
        },
        None => kept(stats, ignored).len() as int,
    }
}

/// The languages that are returned, as positions: those that are ranked,
/// the one with the most code first, equal amounts in the order given, up to
/// the limit.
pub open spec fn top_languages(
    stats: Seq<LanguageStat>,
    ignored: Seq<String>,
    limit: Option<usize>,
) -> Seq<int> {
    Seq::new(
        row_count(stats, ignored, limit) as nat,
        |j: int| kept(stats, ignored)[ranked(kept_keys(stats, ignored))[j]],
    )
}

/// Whether a name is one of those that do not count as the language of a
/// project: style sheets, data, prose and headers.
pub open spec fn ignored_by_default(name: Seq<char>) -> bool {
    name == "CSS"@ || name == "JSON"@ || name == "Markdown"@ || name == "C++ Header"@ || name
        == "C Header"@
}

/// Every position that `kept` lists is one of a language that is not
/// ignored, and they grow.
pub proof fn lemma_kept(stats: Seq<LanguageStat>, ignored: Seq<String>)
    ensures
        kept(stats, ignored).len() <= stats.len(),
        forall|j: int|
            0 <= j < kept(stats, ignored).len() ==> 0 <= #[trigger] kept(stats, ignored)[j]
                < stats.len() && !holds(ignored, stats[kept(stats, ignored)[j]].name@),
        forall|a: int, b: int|
            0 <= a < b < kept(stats, ignored).len() ==> #[trigger] kept(stats, ignored)[a]
                < #[trigger] kept(stats, ignored)[b],
    decreases stats.len(),
{
    if stats.len() > 0 {
        let shorter = stats.drop_last();
        lemma_kept(shorter, ignored);
        let k = kept(stats, ignored);
        let ks = kept(shorter, ignored);
        assert forall|j: int| 0 <= j < k.len() implies 0 <= #[trigger] k[j] < stats.len()
            && !holds(ignored, stats[k[j]].name@) by {
            if j < ks.len() {
                assert(k[j] == ks[j]);
                assert(shorter[ks[j]] == stats[ks[j]]);
            }
        }
        assert forall|a: int, b: int| 0 <= a < b < k.len() implies #[trigger] k[a]
            < #[trigger] k[b] by {
            assert(k[a] == ks[a]);
            if b < ks.len() {
                assert(k[b] == ks[b]);
            }
        }
    }
}

/// The languages that are returned are not ignored, none comes twice, and
/// none has more code than one before it.
pub proof fn lemma_top_languages(
    stats: Seq<LanguageStat>,
    ignored: Seq<String>,
    limit: Option<usize>,
)
    ensures
        top_languages(stats, ignored, limit).len() <= stats.len(),
        limit.is_some() ==> top_languages(stats, ignored, limit).len() <= limit.unwrap(),
        forall|j: int|
            0 <= j < top_languages(stats, ignored, limit).len() ==> {
                let at = #[trigger] top_languages(stats, ignored, limit)[j];
                0 <= at < stats.len() && !holds(ignored, stats[at].name@)
            },
        top_languages(stats, ignored, limit).no_duplicates(),
        forall|a: int, b: int|
            0 <= a < b < top_languages(stats, ignored, limit).len() ==> stats[#[trigger] top_languages(
                stats,
                ignored,
                limit,
            )[a]].code >= stats[#[trigger] top_languages(stats, ignored, limit)[b]].code,
{
    let top = top_languages(stats, ignored, limit);
    let k = kept(stats, ignored);
    let keys = kept_keys(stats, ignored);
    let order = ranked(keys);
    lemma_kept(stats, ignored);
    crate::ranking::lemma_ranked_is_permutation(keys);
    crate::ranking::lemma_ranked_descending(keys);
    assert forall|j: int| 0 <= j < top.len() implies {
        let at = #[trigger] top[j];
        0 <= at < stats.len() && !holds(ignored, stats[at].name@)
    } by {
        assert(0 <= order[j] < keys.len());
    }
    assert forall|a: int, b: int| 0 <= a < top.len() && 0 <= b < top.len() && a != b implies top[a]
        != top[b] by {
        assert(0 <= order[a] < keys.len());
        assert(0 <= order[b] < keys.len());
        assert(order[a] != order[b]);
        if order[a] < order[b] {
            assert(k[order[a]] < k[order[b]]);
        } else {
            assert(k[order[b]] < k[order[a]]);
        }
    }
    assert forall|a: int, b: int| 0 <= a < b < top.len() implies stats[#[trigger] top[a]].code
        >= stats[#[trigger] top[b]].code by {
        assert(0 <= order[a] < keys.len());
        assert(0 <= order[b] < keys.len());
        assert(keys[order[a]] >= keys[order[b]]);
    }
}

/// The lines of code of all languages together, as far as 64 bits count.
pub fn total_code(stats: &Vec<LanguageStat>) -> (total: u64)
    ensures
        total == total_of(stats@),
{
    let mut total: u64 = 0;
    let mut i: usize = 0;
    while i < stats.len()
        invariant
            0 <= i <= stats@.len(),
            total == total_of(stats@.take(i as int)),
        decreases stats@.len() - i,
    {
        proof {
            let seen = stats@.take(i + 1);
            assert(seen.drop_last() == stats@.take(i as int));
            assert(seen.last() == stats@[i as int]);
        }
        total = total.saturating_add(stats[i].code as u64);
        i = i + 1;
    }
    proof {
        assert(stats@.take(i as int) == stats@);
    }
    total
}

/// Ranks the languages of a project.
pub struct TypeScanner {
    ignore_langs: Vec<String>,
}

impl TypeScanner {
    /// The names of the languages that are not ranked.
    pub closed spec fn ignored(&self) -> Seq<String> {
        self.ignore_langs@
    }

    /// A scanner that does not rank style sheets, data, prose and headers.
    pub fn new() -> (scanner: Self)
        ensures
            forall|name: Seq<char>| #[trigger]
                holds(scanner.ignored(), name) <==> ignored_by_default(name),
    {
        let mut ignore_langs: Vec<String> = Vec::new();
        ignore_langs.push("CSS".to_owned());
        ignore_langs.push("JSON".to_owned());
        ignore_langs.push("Markdown".to_owned());
        ignore_langs.push("C++ Header".to_owned());
        ignore_langs.push("C Header".to_owned());
        proof {
            assert forall|name: Seq<char>| #[trigger]
                holds(ignore_langs@, name) <==> ignored_by_default(name) by {
                assert(ignore_langs@[0]@ == "CSS"@ && ignore_langs@[1]@ == "JSON"@
                    && ignore_langs@[2]@ == "Markdown"@ && ignore_langs@[3]@ == "C++ Header"@
                    && ignore_langs@[4]@ == "C Header"@);
            }
        }
        TypeScanner { ignore_langs }
    }

    /// Whether a language is left out of the ranking.
    pub fn is_ignored(&self, name: &str) -> (ignored: bool)
        ensures
            ignored == holds(self.ignored(), name@),
    {
        list_holds(&self.ignore_langs, name)
    }

    /// The languages of a project from what was counted of each: those that
    /// are ranked, the one with the most code first, equal amounts in the
    /// order given, up to the limit; each with its lines of code and the
    /// lines of all languages together.
    pub fn scan(&self, stats: &Vec<LanguageStat>, limit: Option<usize>) -> (rows: Vec<
        ProjectLanguage,
    >)
        ensures
            rows@.len() == top_languages(stats@, self.ignored(), limit).len(),
            forall|j: int|
                0 <= j < rows@.len() ==> {
                    let at = top_languages(stats@, self.ignored(), limit)[j];
                    &&& 0 <= at < stats@.len()
                    &&& (#[trigger] rows@[j]).name@ == stats@[at].name@
                    &&& rows@[j].code == stats@[at].code
                    &&& rows@[j].total == total_of(stats@)
                },
    {
        let total = total_code(stats);
        let mut found: Vec<usize> = Vec::new();
        let mut keys: Vec<i64> = Vec::new();
        let mut i: usize = 0;
        while i < stats.len()
            invariant
                0 <= i <= stats@.len(),
                as_ints(found@) == kept(stats@.take(i as int), self.ignored()),
                keys@ == kept_keys(stats@.take(i as int), self.ignored()),
                keys@.len() == found@.len(),
                forall|j: int| 0 <= j < found@.len() ==> #[trigger] found@[j] < i,
            decreases stats@.len() - i,
        {
            let ghost before = stats@.take(i as int);
            let ghost seen = stats@.take(i + 1);
            proof {
                assert(seen.drop_last() == before);
                assert(seen.last() == stats@[i as int]);
                lemma_kept(before, self.ignored());
            }
            if !self.is_ignored(stats[i].name.as_str()) {
                found.push(i);
                keys.push(stats[i].code as i64);
                proof {
                    assert(as_ints(found@) =~= kept(seen, self.ignored()));
                    assert forall|j: int| 0 <= j < keys@.len() implies keys@[j] == kept_keys(
                        seen,
                        self.ignored(),
                    )[j] by {
                        if j < keys@.len() - 1 {
                            let at = kept(before, self.ignored())[j];
                            assert(kept(seen, self.ignored())[j] == at);
                            assert(kept_keys(before, self.ignored())[j] == before[at].code as i64);
                            assert(before[at] == seen[at]);
                        }
                    }
                    assert(keys@ =~= kept_keys(seen, self.ignored()));
                }
            } else {
                proof {
                    assert forall|j: int| 0 <= j < keys@.len() implies keys@[j] == kept_keys(
                        seen,
                        self.ignored(),
                    )[j] by {
                        let at = kept(before, self.ignored())[j];
                        assert(kept_keys(before, self.ignored())[j] == before[at].code as i64);
                        assert(before[at] == seen[at]);
                    }
                    assert(keys@ =~= kept_keys(seen, self.ignored()));
                }
            }
            i = i + 1;
        }
        proof {
            assert(stats@.take(i as int) == stats@);
            crate::ranking::lemma_ranked_is_permutation(keys@);
        }
        let wanted = match limit {
            Some(l) => l,
            None => keys.len(),
        };
        let order = top_ranked(&keys, wanted);
        let ghost top = top_languages(stats@, self.ignored(), limit);
        let mut rows: Vec<ProjectLanguage> = Vec::new();
        let mut j: usize = 0;
        while j < order.len()
            invariant
                0 <= j <= order@.len(),
                order@.len() == top.len(),
                top == top_languages(stats@, self.ignored(), limit),
                as_ints(order@) == ranked(keys@).take(order@.len() as int),
                ranked(keys@).len() == keys@.len(),
                forall|t: int| 0 <= t < order@.len() ==> #[trigger] order@[t] < keys@.len(),
                keys@ == kept_keys(stats@, self.ignored()),
                keys@.len() == found@.len(),
                as_ints(found@) == kept(stats@, self.ignored()),
                forall|t: int| 0 <= t < found@.len() ==> #[trigger] found@[t] < stats@.len(),
                rows@.len() == j,
                forall|t: int|
                    0 <= t < j ==> {
                        &&& (#[trigger] rows@[t]).name@ == stats@[top[t]].name@
                        &&& rows@[t].code == stats@[top[t]].code
                        &&& rows@[t].total == total
                    },
            decreases order@.len() - j,
        {
            let slot: usize = order[j];
            proof {
                assert(as_ints(order@)[j as int] == ranked(keys@)[j as int]);
                assert(as_ints(found@)[slot as int] == kept(stats@, self.ignored())[slot as int]);
            }
            let at: usize = found[slot];
            proof {
                assert(top[j as int] == at as int);
            }
            rows.push(
                ProjectLanguage { name: stats[at].name.clone(), code: stats[at].code, total },
            );
            j = j + 1;
        }
        proof {
            lemma_top_languages(stats@, self.ignored(), limit);
        }
        rows
    }
}

} // verus!
