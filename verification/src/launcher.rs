//! The launcher: a registry of providers, the routing of a query to them, the
//! current list of results, and the way back from a result to its execution.

use crate::ranking::{as_ints, entries_below, ranked, top_ranked};
use crate::text::{chars_of, text_between};
use crate::{LaunchError, LauncherListItem, LauncherPlugin};
use vstd::hash_map::StringHashMap;
use vstd::prelude::*;

verus! {

/// What the launcher knows of a provider: what it answered when it was
/// registered.
pub struct ProviderInfo {
    pub priority: i32,
    pub prefix: Option<Seq<char>>,
    pub by_prefix_only: bool,
}

/// Where a query goes.
pub enum RoutePlan {
    /// The empty query: the default lists of the providers that always show.
    Default,
    /// A query behind a registered prefix: to that provider alone, without
    /// the prefix.
    Scoped { provider: int, rest: Seq<char> },
    /// Any other query: to the providers that always show.
    Unscoped,
}

/// The priorities of the providers as ranking keys.
pub open spec fn priorities(providers: Seq<ProviderInfo>) -> Seq<i64> {
    Seq::new(providers.len(), |i: int| providers[i].priority as i64)
}

/// The position of the first space of a query, or its length if it has none.
pub open spec fn first_space(query: Seq<char>) -> int
    decreases query.len(),
{
    if query.len() == 0 {
        0
    } else if query[0] == ' ' {
        0
    } else {
        1 + first_space(query.skip(1))
    }
}

/// The provider that a prefix word stands for: the one registered last with
/// exactly that word as its prefix.
pub open spec fn find_prefix(providers: Seq<ProviderInfo>, word: Seq<char>) -> Option<int>
    decreases providers.len(),
{
    if providers.len() == 0 {
        None
    } else if providers.last().prefix == Some(word) {
        Some(providers.len() - 1)
    } else {
        find_prefix(providers.drop_last(), word)
    }
}

/// Where a query goes. A prefix counts only in front of a space, and the
/// query that its provider gets is what follows that space.
pub open spec fn route_of(providers: Seq<ProviderInfo>, query: Seq<char>) -> RoutePlan {
    if query.len() == 0 {
        RoutePlan::Default
    } else {
        let at = first_space(query);
        if at < query.len() {
            match find_prefix(providers, query.take(at)) {
                Some(provider) => RoutePlan::Scoped { provider, rest: query.skip(at + 1) },
                None => RoutePlan::Unscoped,
            }
        } else {
            RoutePlan::Unscoped
        }
    }
}

/// The providers that take part in queries without a prefix, in query order.
pub open spec fn shown(providers: Seq<ProviderInfo>, order: Seq<int>) -> Seq<int>
    decreases order.len(),
{
    if order.len() == 0 {
        Seq::empty()
    } else if providers[order.last()].by_prefix_only {
        shown(providers, order.drop_last())
    } else {
        shown(providers, order.drop_last()).push(order.last())
    }
}

/// The providers that are asked, in the order in which they are asked.
pub open spec fn targets(providers: Seq<ProviderInfo>, order: Seq<int>, plan: RoutePlan) -> Seq<
    int,
> {
    match plan {
        RoutePlan::Scoped { provider, rest } => seq![provider],
        _ => shown(providers, order),
    }
}

/// The providers of a result list in which the first provider asked
/// contributed `counts[0]` items, the next one `counts[1]`, and so on.
pub open spec fn blocks(asked: Seq<int>, counts: Seq<nat>) -> Seq<int>
    decreases asked.len(),
{
    if asked.len() == 0 || counts.len() == 0 {
        Seq::empty()
    } else {
        blocks(asked.drop_last(), counts.drop_last()) + Seq::new(
            counts.last(),
            |i: int| asked.last(),
        )
    }
}

/// The query that the providers of a plan are asked: none for the default
/// results, what follows the prefix for a query behind one, and the whole
/// query otherwise.
pub open spec fn asked_query(plan: RoutePlan, query: Seq<char>) -> Option<Seq<char>> {
    match plan {
        RoutePlan::Default => None,
        RoutePlan::Scoped { provider, rest } => Some(rest),
        RoutePlan::Unscoped => Some(query),
    }
}

/// A query as the text that a provider is asked for.
pub open spec fn asked_text(query: Option<&str>) -> Option<Seq<char>> {
    match query {
        Some(q) => Some(q@),
        None => None,
    }
}

/// Where the block of the provider asked at position `t` begins: behind the
/// blocks of the providers asked before it.
pub open spec fn block_start(counts: Seq<nat>, t: int) -> int
    decreases t,
{
    if t <= 0 || t > counts.len() {
        0
    } else {
        block_start(counts, t - 1) + counts[t - 1]
    }
}

/// One more count changes no block before it, and no block begins before
/// the first result.
pub proof fn lemma_block_start_push(counts: Seq<nat>, count: nat, t: int)
    requires
        0 <= t <= counts.len(),
    ensures
        block_start(counts.push(count), t) == block_start(counts, t),
        0 <= block_start(counts, t),
    decreases t,
{
    if t > 0 {
        lemma_block_start_push(counts, count, t - 1);
        assert(counts.push(count)[t - 1] == counts[t - 1]);
    }
}

/// Whether an index from identifiers to positions belongs to a list of
/// identifiers: it knows exactly the identifiers of the list, and leads to the
/// last position at which each stands.
pub open spec fn index_matches(ids: Seq<Seq<char>>, index: Map<Seq<char>, usize>) -> bool {
    &&& forall|id: Seq<char>| #[trigger] index.contains_key(id) <==> ids.contains(id)
    &&& forall|id: Seq<char>| #[trigger]
        index.contains_key(id) ==> {
            &&& index[id] < ids.len()
            &&& ids[index[id] as int] == id
            &&& forall|j: int| index[id] < j < ids.len() ==> ids[j] != id
        }
}

/// Whether each identifier of a list is an identifier of the item at the
/// same position.
pub open spec fn items_have_ids(
    items: Seq<Box<dyn LauncherListItem>>,
    ids: Seq<Seq<char>>,
) -> bool {
    forall|i: int| 0 <= i < items.len() && i < ids.len() ==> (#[trigger] items[i]).has_id(ids[i])
}

/// Whether a result says that execution failed with this message.
pub open spec fn failed_with(r: Result<(), LaunchError>, message: Seq<char>) -> bool {
    match r {
        Ok(_) => false,
        Err(e) => e.text() == message,
    }
}

/// Where a query goes, as the launcher hands it out.
pub enum Route {
    Default,
    Scoped { provider: usize, rest: String },
    Unscoped,
}

impl View for Route {
    type V = RoutePlan;

    open spec fn view(&self) -> RoutePlan {
        match self {
            Route::Default => RoutePlan::Default,
            Route::Scoped { provider, rest } => RoutePlan::Scoped {
                provider: *provider as int,
                rest: rest@,
            },
            Route::Unscoped => RoutePlan::Unscoped,
        }
    }
}

struct Registered {
    priority: i32,
    prefix: Option<String>,
    by_prefix_only: bool,
}

impl Registered {
    spec fn info(&self) -> ProviderInfo {
        ProviderInfo {
            priority: self.priority,
            prefix: match self.prefix {
                Some(p) => Some(p@),
                None => None,
            },
            by_prefix_only: self.by_prefix_only,
        }
    }
}

/// The launcher.
pub struct WaycastLauncher {
    plugins: Vec<Box<dyn LauncherPlugin>>,
    registered: Vec<Registered>,
    order: Vec<usize>,
    current_results: Vec<Box<dyn LauncherListItem>>,
    current_ids: Vec<String>,
    current_sources: Vec<usize>,
    current_results_by_id: StringHashMap<usize>,
}

/// Splits a query at its first space: the word in front of the space and
/// what follows the space; `None` for a query without a space.
fn split_at_first_space(query: &str) -> (parts: Option<(String, String)>)
    ensures
        match parts {
            Some((word, rest)) => {
                &&& first_space(query@) < query@.len()
                &&& word@ == query@.take(first_space(query@))
                &&& rest@ == query@.skip(first_space(query@) + 1)
            },
            None => first_space(query@) == query@.len(),
        },
{
    let chars = chars_of(query);
    let mut at: usize = 0;
    proof {
        lemma_first_space(query@);
    }
    while at < chars.len() && chars[at] != ' '
        invariant
            0 <= at <= chars@.len(),
            chars@ == query@,
            forall|j: int| 0 <= j < at ==> chars@[j] != ' ',
        decreases chars@.len() - at,
    {
        at = at + 1;
    }
    proof {
        // the first space stands nowhere else: nothing before `at` is a
        // space, and `at` is one or the end
        let first = first_space(query@);
        if first < at {
            assert(query@[first] == ' ');
        }
        if at < first {
            assert(query@[at as int] != ' ');
        }
        assert(first == at);
    }
    if at < chars.len() {
        let word = text_between(&chars, 0, at);
        let rest = text_between(&chars, at + 1, chars.len());
        proof {
            assert(chars@.subrange(0, at as int) =~= query@.take(at as int));
            assert(chars@.subrange(at + 1, chars@.len() as int) =~= query@.skip(at + 1));
        }
        Some((word, rest))
    } else {
        None
    }
}

/// The first space of a query stands where `first_space` says, and nowhere
/// before.
pub proof fn lemma_first_space(query: Seq<char>)
    ensures
        0 <= first_space(query) <= query.len(),
        forall|j: int| 0 <= j < first_space(query) ==> query[j] != ' ',
        first_space(query) < query.len() ==> query[first_space(query)] == ' ',
    decreases query.len(),
{
    if query.len() > 0 && query[0] != ' ' {
        let rest = query.skip(1);
        lemma_first_space(rest);
        assert forall|j: int| 0 <= j < first_space(query) implies query[j] != ' ' by {
            if j > 0 {
                assert(query[j] == rest[j - 1]);
            }
        }
        if first_space(query) < query.len() {
            assert(query[first_space(query)] == rest[first_space(rest)]);
        }
    }
}

/// What `find_prefix` finds is a provider with that prefix, and no provider
/// registered after it has the same.
pub proof fn lemma_find_prefix(providers: Seq<ProviderInfo>, word: Seq<char>)
    ensures
        match find_prefix(providers, word) {
            Some(p) => 0 <= p < providers.len() && providers[p].prefix == Some(word) && forall|
                j: int,
            |
                p < j < providers.len() ==> (#[trigger] providers[j]).prefix != Some(word),
            None => forall|j: int|
                0 <= j < providers.len() ==> (#[trigger] providers[j]).prefix != Some(word),
        },
    decreases providers.len(),
{
    if providers.len() > 0 && providers.last().prefix != Some(word) {
        let shorter = providers.drop_last();
        lemma_find_prefix(shorter, word);
        match find_prefix(shorter, word) {
            Some(p) => {
                assert(providers[p] == shorter[p]);
                assert forall|j: int| p < j < providers.len() implies (#[trigger] providers[j]).prefix
                    != Some(word) by {
                    if j < shorter.len() {
                        assert(providers[j] == shorter[j]);
                    }
                }
            },
            None => {
                assert forall|j: int| 0 <= j < providers.len() implies (#[trigger] providers[j]).prefix
                    != Some(word) by {
                    if j < shorter.len() {
                        assert(providers[j] == shorter[j]);
                    }
                }
            },
        }
    }
}

/// The providers that always show are providers of the query order, none of
/// them reserved to its prefix.
pub proof fn lemma_shown(providers: Seq<ProviderInfo>, order: Seq<int>)
    requires
        entries_below(order, providers.len() as int),
    ensures
        shown(providers, order).len() <= order.len(),
        forall|j: int|
            0 <= j < shown(providers, order).len() ==> {
                &&& 0 <= #[trigger] shown(providers, order)[j] < providers.len()
                &&& !providers[shown(providers, order)[j]].by_prefix_only
                &&& order.contains(shown(providers, order)[j])
            },
        forall|i: int|
            0 <= i < order.len() && !providers[#[trigger] order[i]].by_prefix_only ==> shown(
                providers,
                order,
            ).contains(order[i]),
    decreases order.len(),
{
    if order.len() > 0 {
        let shorter = order.drop_last();
        assert forall|j: int| 0 <= j < shorter.len() implies 0 <= #[trigger] shorter[j]
            < providers.len() by {
            assert(shorter[j] == order[j]);
        }
        lemma_shown(providers, shorter);
        let s = shown(providers, order);
        let ss = shown(providers, shorter);
        assert(0 <= order[order.len() - 1] < providers.len());
        assert forall|j: int| 0 <= j < s.len() implies {
            &&& 0 <= #[trigger] s[j] < providers.len()
            &&& !providers[s[j]].by_prefix_only
            &&& order.contains(s[j])
        } by {
            if j < ss.len() {
                assert(s[j] == ss[j]);
                assert(shorter.contains(ss[j]));
                let k = choose|k: int| 0 <= k < shorter.len() && shorter[k] == ss[j];
                assert(order[k] == ss[j]);
            } else {
                assert(s[j] == order[order.len() - 1]);
            }
        }
        assert forall|i: int|
            0 <= i < order.len() && !providers[#[trigger] order[i]].by_prefix_only implies s.contains(
            order[i],
        ) by {
            if i < shorter.len() {
                assert(shorter[i] == order[i]);
                assert(ss.contains(shorter[i]));
                let k = choose|k: int| 0 <= k < ss.len() && ss[k] == shorter[i];
                assert(s[k] == order[i]);
            } else {
                assert(s[s.len() - 1] == order[i]);
            }
        }
    }
}

/// Every provider of a result list made of blocks is one of those asked.
pub proof fn lemma_blocks(asked: Seq<int>, counts: Seq<nat>)
    ensures
        forall|i: int|
            0 <= i < blocks(asked, counts).len() ==> asked.contains(
                #[trigger] blocks(asked, counts)[i],
            ),
    decreases asked.len(),
{
    if asked.len() > 0 && counts.len() > 0 {
        let front = blocks(asked.drop_last(), counts.drop_last());
        lemma_blocks(asked.drop_last(), counts.drop_last());
        let all = blocks(asked, counts);
        assert forall|i: int| 0 <= i < all.len() implies asked.contains(#[trigger] all[i]) by {
            if i < front.len() {
                assert(all[i] == front[i]);
                assert(asked.drop_last().contains(front[i]));
                let k = choose|k: int|
                    0 <= k < asked.drop_last().len() && asked.drop_last()[k] == front[i];
                assert(asked[k] == front[i]);
            } else {
                assert(all[i] == asked[asked.len() - 1]);
            }
        }
    }
}

/// Every current result can be found again by the identifier it gave: the
/// identifier recorded for it is one of its own, the index knows it, and it
/// leads to a result that has the same identifier.
pub proof fn lemma_every_result_resolves(launcher: &WaycastLauncher, i: int)
    requires
        launcher.wf(),
        0 <= i < launcher.ids().len(),
    ensures
        launcher.knows(launcher.ids()[i]),
        launcher.index().contains_key(launcher.ids()[i]),
        launcher.index()[launcher.ids()[i]] < launcher.results().len(),
        launcher.ids()[launcher.index()[launcher.ids()[i]] as int] == launcher.ids()[i],
        launcher.results()[i].has_id(launcher.ids()[i]),
        launcher.results()[launcher.position_of(launcher.ids()[i])].has_id(launcher.ids()[i]),
        i <= launcher.index()[launcher.ids()[i]],
{
    let id = launcher.ids()[i];
    assert(launcher.ids().contains(id));
    assert(launcher.index().contains_key(id));
    let at = launcher.position_of(id);
    assert(launcher.results()[at].has_id(launcher.ids()[at]));
}

/// Where no two current results gave the same identifier, each identifier
/// leads back to the very result that gave it.
pub proof fn lemma_distinct_ids_resolve_exactly(launcher: &WaycastLauncher, i: int)
    requires
        launcher.wf(),
        launcher.ids().no_duplicates(),
        0 <= i < launcher.ids().len(),
    ensures
        launcher.index()[launcher.ids()[i]] == i,
{
    lemma_every_result_resolves(launcher, i);
}

/// The empty query is answered by the default lists.
pub proof fn lemma_empty_query_is_default(providers: Seq<ProviderInfo>)
    ensures
        route_of(providers, Seq::<char>::empty()) == RoutePlan::Default,
{
}

/// A query goes to one provider alone exactly if it holds a space and the
/// word in front of its first space is a registered prefix; the provider is
/// then the last one registered with that prefix, and the query it gets is
/// what follows the space.
pub proof fn lemma_prefix_routing(providers: Seq<ProviderInfo>, query: Seq<char>)
    ensures
        match route_of(providers, query) {
            RoutePlan::Scoped { provider, rest } => {
                &&& 0 <= provider < providers.len()
                &&& first_space(query) < query.len()
                &&& providers[provider].prefix == Some(query.take(first_space(query)))
                &&& query == query.take(first_space(query)) + seq![' '] + rest
                &&& forall|j: int|
                    provider < j < providers.len() ==> (#[trigger] providers[j]).prefix != Some(
                        query.take(first_space(query)),
                    )
            },
            RoutePlan::Unscoped => query.len() > 0 && (first_space(query) == query.len()
                || forall|j: int|
                0 <= j < providers.len() ==> (#[trigger] providers[j]).prefix != Some(
                    query.take(first_space(query)),
                )),
            RoutePlan::Default => query.len() == 0,
        },
{
    lemma_first_space(query);
    if query.len() > 0 && first_space(query) < query.len() {
        let at = first_space(query);
        lemma_find_prefix(providers, query.take(at));
        assert(query =~= query.take(at) + seq![' '] + query.skip(at + 1));
    }
}

/// Results come only from the providers that the query was routed to: from
/// the one provider of the prefix where the query has one, and otherwise from
/// providers that are not reserved to their prefix.
pub proof fn lemma_results_come_from_targets(
    providers: Seq<ProviderInfo>,
    order: Seq<int>,
    query: Seq<char>,
    counts: Seq<nat>,
)
    requires
        entries_below(order, providers.len() as int),
    ensures
        ({
            let plan = route_of(providers, query);
            let sources = blocks(targets(providers, order, plan), counts);
            match plan {
                RoutePlan::Scoped { provider, rest } => forall|i: int|
                    0 <= i < sources.len() ==> #[trigger] sources[i] == provider,
                _ => forall|i: int|
                    0 <= i < sources.len() ==> {
                        &&& 0 <= #[trigger] sources[i] < providers.len()
                        &&& !providers[sources[i]].by_prefix_only
                    },
            }
        }),
{
    let plan = route_of(providers, query);
    let asked = targets(providers, order, plan);
    let sources = blocks(asked, counts);
    lemma_blocks(asked, counts);
    lemma_shown(providers, order);
    assert forall|i: int| 0 <= i < sources.len() implies asked.contains(#[trigger] sources[i]) by {}
    match plan {
        RoutePlan::Scoped { provider, rest } => {
            assert forall|i: int| 0 <= i < sources.len() implies #[trigger] sources[i] == provider by {
                assert(asked.contains(sources[i]));
                let k = choose|k: int| 0 <= k < asked.len() && asked[k] == sources[i];
            }
        },
        _ => {
            assert forall|i: int| 0 <= i < sources.len() implies {
                &&& 0 <= #[trigger] sources[i] < providers.len()
                &&& !providers[sources[i]].by_prefix_only
            } by {
                assert(asked.contains(sources[i]));
                let k = choose|k: int| 0 <= k < asked.len() && asked[k] == sources[i];
            }
        },
    }
}

/// The results of a query behind a prefix all come from the provider of the
/// prefix; the results of any other query, and the default results, come
/// from providers that are not reserved to their prefix.
pub proof fn lemma_answer_comes_from_targets(launcher: &WaycastLauncher, query: Seq<char>)
    requires
        launcher.wf(),
        launcher.holds_answer_to(route_of(launcher.providers(), query)),
    ensures
        match route_of(launcher.providers(), query) {
            RoutePlan::Scoped { provider, rest } => forall|i: int|
                0 <= i < launcher.sources().len() ==> #[trigger] launcher.sources()[i] == provider,
            _ => forall|i: int|
                0 <= i < launcher.sources().len() ==> {
                    &&& 0 <= #[trigger] launcher.sources()[i] < launcher.providers().len()
                    &&& !launcher.providers()[launcher.sources()[i]].by_prefix_only
                },
        },
{
    let plan = route_of(launcher.providers(), query);
    let asked = targets(launcher.providers(), launcher.order(), plan);
    let counts = choose|counts: Seq<nat>|
        counts.len() == asked.len() && launcher.sources() == blocks(asked, counts);
    lemma_results_come_from_targets(launcher.providers(), launcher.order(), query, counts);
}

/// In a result list made of blocks, the results of a provider asked earlier
/// come before those of a provider asked later.
pub proof fn lemma_blocks_keep_order(asked: Seq<int>, counts: Seq<nat>, a: int, b: int)
    requires
        asked.no_duplicates(),
        0 <= a < b < blocks(asked, counts).len(),
    ensures
        exists|s: int, t: int|
            0 <= s <= t < asked.len() && asked[s] == blocks(asked, counts)[a] && asked[t] == blocks(
                asked,
                counts,
            )[b],
    decreases asked.len(),
{
    if asked.len() > 0 && counts.len() > 0 {
        let front_asked = asked.drop_last();
        let front = blocks(front_asked, counts.drop_last());
        let all = blocks(asked, counts);
        let last = asked.len() - 1;
        lemma_blocks(front_asked, counts.drop_last());
        if b < front.len() {
            assert forall|x: int, y: int|
                0 <= x < front_asked.len() && 0 <= y < front_asked.len() && x != y implies front_asked[x]
                != front_asked[y] by {
                assert(front_asked[x] == asked[x]);
                assert(front_asked[y] == asked[y]);
            }
            lemma_blocks_keep_order(front_asked, counts.drop_last(), a, b);
            let (s, t) = choose|s: int, t: int|
                0 <= s <= t < front_asked.len() && front_asked[s] == front[a] && front_asked[t]
                    == front[b];
            assert(all[a] == front[a] && all[b] == front[b]);
            assert(asked[s] == all[a] && asked[t] == all[b]);
        } else if a < front.len() {
            assert(all[a] == front[a]);
            assert(front_asked.contains(front[a]));
            let s = choose|s: int| 0 <= s < front_asked.len() && front_asked[s] == front[a];
            assert(asked[s] == all[a] && asked[last] == all[b]);
        } else {
            assert(asked[last] == all[a] && asked[last] == all[b]);
        }
    }
}

/// After `init`, a provider with a higher priority is asked before one with a
/// lower priority, and of two with equal priorities the one registered first
/// is asked first.
pub proof fn lemma_order_by_priority(providers: Seq<ProviderInfo>, a: int, b: int)
    requires
        0 <= a < b < providers.len(),
    ensures
        ({
            let order = ranked(priorities(providers));
            &&& order.len() == providers.len()
            &&& 0 <= order[a] < providers.len()
            &&& 0 <= order[b] < providers.len()
            &&& providers[order[a]].priority > providers[order[b]].priority || (
            providers[order[a]].priority == providers[order[b]].priority && order[a] < order[b])
        }),
{
    let keys = priorities(providers);
    let order = ranked(keys);
    crate::ranking::lemma_ranked_is_permutation(keys);
    crate::ranking::lemma_ranked_descending(keys);
    crate::ranking::lemma_ranked_stable(keys);
    assert(0 <= order[a] < keys.len());
    assert(0 <= order[b] < keys.len());
    assert(keys[order[a]] >= keys[order[b]]);
    if keys[order[a]] == keys[order[b]] {
        assert(order[a] < order[b]);
    }
}

impl WaycastLauncher {
    /// The providers, in the order in which they were registered.
    pub closed spec fn providers(&self) -> Seq<ProviderInfo> {
        Seq::new(self.registered@.len(), |i: int| self.registered@[i].info())
    }

    /// Each provider has its entry in the registry.
    pub closed spec fn coherent(&self) -> bool {
        self.plugins@.len() == self.registered@.len()
    }

    /// The order in which providers are asked: positions in `providers`.
    pub closed spec fn order(&self) -> Seq<int> {
        as_ints(self.order@)
    }

    /// The current results.
    pub closed spec fn results(&self) -> Seq<Box<dyn LauncherListItem>> {
        self.current_results@
    }

    /// The identifier that each current result gave when it was taken in.
    pub closed spec fn ids(&self) -> Seq<Seq<char>> {
        Seq::new(self.current_ids@.len(), |i: int| self.current_ids@[i]@)
    }

    /// The provider that each current result came from: a position in
    /// `providers`.
    pub closed spec fn sources(&self) -> Seq<int> {
        as_ints(self.current_sources@)
    }

    /// The index from identifiers to positions in the current results.
    pub closed spec fn index(&self) -> Map<Seq<char>, usize> {
        self.current_results_by_id@
    }

    /// What holds of every launcher: the query order names each provider
    /// once, each result has its provider and the identifier that it gave,
    /// and the index belongs to the identifiers.
    pub open spec fn wf(&self) -> bool {
        &&& self.coherent()
        &&& self.order().len() == self.providers().len()
        &&& self.order().no_duplicates()
        &&& entries_below(self.order(), self.providers().len() as int)
        &&& self.ids().len() == self.results().len()
        &&& self.sources().len() == self.results().len()
        &&& entries_below(self.sources(), self.providers().len() as int)
        &&& index_matches(self.ids(), self.index())
        &&& items_have_ids(self.results(), self.ids())
    }

    /// The position of the current result that an identifier leads to.
    pub open spec fn position_of(&self, id: Seq<char>) -> int {
        self.index()[id] as int
    }

    /// Whether an identifier is one of the current results.
    pub open spec fn knows(&self, id: Seq<char>) -> bool {
        self.ids().contains(id)
    }

    /// Whether the current results are an answer to a query that was routed
    /// by `plan`: each provider that the query went to has its block of
    /// results, the blocks stand in the order in which the providers were
    /// asked, and there is nothing else.
    pub open spec fn holds_answer_to(&self, plan: RoutePlan) -> bool {
        exists|counts: Seq<nat>|
            counts.len() == targets(self.providers(), self.order(), plan).len() && self.sources()
                == blocks(targets(self.providers(), self.order(), plan), counts)
    }

    /// The providers themselves, in the order in which they were registered.
    pub closed spec fn plugins(&self) -> Seq<Box<dyn LauncherPlugin>> {
        self.plugins@
    }

    /// Whether a part of the current results is what a provider handed out
    /// when it was asked: for its default list where there is no query, and
    /// for the matches of the query otherwise.
    pub open spec fn block_is_answer(
        &self,
        asked: Option<Seq<char>>,
        provider: int,
        start: int,
        count: nat,
    ) -> bool {
        match asked {
            None => self.plugins()[provider].lists(self.results().subrange(start, start + count)),
            Some(query) => self.plugins()[provider].finds(
                query,
                self.results().subrange(start, start + count),
            ),
        }
    }

    /// Whether each block of the current results is what its provider handed
    /// out, where the providers of `targets` were asked in turn and gave
    /// `counts` items each.
    pub open spec fn handed_out(
        &self,
        asked: Option<Seq<char>>,
        targets: Seq<int>,
        counts: Seq<nat>,
    ) -> bool {
        forall|t: int|
            0 <= t < targets.len() && t < counts.len() ==> self.block_is_answer(
                asked,
                #[trigger] targets[t],
                block_start(counts, t),
                counts[t],
            )
    }

    /// Whether the current results are the answer to a query that was routed
    /// by `plan`: each provider that the query went to was asked, for the
    /// query as the plan hands it on, and the results are what the providers
    /// handed out, block by block, in the order in which they were asked.
    pub open spec fn answers(&self, plan: RoutePlan, query: Seq<char>) -> bool {
        exists|counts: Seq<nat>|
            {
                &&& counts.len() == targets(self.providers(), self.order(), plan).len()
                &&& self.sources() == blocks(targets(self.providers(), self.order(), plan), counts)
                &&& #[trigger] self.handed_out(
                    asked_query(plan, query),
                    targets(self.providers(), self.order(), plan),
                    counts,
                )
            }
    }

    /// A launcher without providers and without results.
    pub fn new() -> (r: Self)
        ensures
            r.wf(),
            r.providers().len() == 0,
            r.results().len() == 0,
    {
        let r = WaycastLauncher {
            plugins: Vec::new(),
            registered: Vec::new(),
            order: Vec::new(),
            current_results: Vec::new(),
            current_ids: Vec::new(),
            current_sources: Vec::new(),
            current_results_by_id: StringHashMap::new(),
        };
        proof {
            crate::seqs::lemma_empty::<Box<dyn LauncherPlugin>>();
            crate::seqs::lemma_empty::<Box<dyn LauncherListItem>>();
            assert(r.ids() =~= Seq::<Seq<char>>::empty());
            assert(r.order() =~= Seq::<int>::empty());
            assert(r.sources() =~= Seq::<int>::empty());
            assert forall|id: Seq<char>| !r.ids().contains(id) by {}
        }
        r
    }

    /// Registers a provider with what it answered when asked for its
    /// priority, its prefix and whether it is reserved to its prefix. It is
    /// asked last until `init` orders the providers.
    pub fn register(
        self,
        plugin: Box<dyn LauncherPlugin>,
        priority: i32,
        prefix: Option<String>,
        by_prefix_only: bool,
    ) -> (r: Self)
        requires
            self.wf(),
        ensures
            r.wf(),
            r.providers() == self.providers().push(
                ProviderInfo {
                    priority,
                    prefix: match prefix {
                        Some(p) => Some(p@),
                        None => None,
                    },
                    by_prefix_only,
                },
            ),
            r.plugins() == self.plugins().push(plugin),
            r.order() == self.order().push(self.providers().len() as int),
            r.results() == self.results(),
            r.ids() == self.ids(),
            r.sources() == self.sources(),
    {
        let ghost before = self;
        let mut this = self;
        let at = this.registered.len();
        this.plugins.push(plugin);
        this.registered.push(Registered { priority, prefix, by_prefix_only });
        this.order.push(at);
        proof {
            crate::seqs::lemma_push(before.plugins@, plugin);
            assert(this.providers() =~= before.providers().push(
                ProviderInfo {
                    priority,
                    prefix: match prefix {
                        Some(p) => Some(p@),
                        None => None,
                    },
                    by_prefix_only,
                },
            ));
            assert(this.order() =~= before.order().push(at as int));
            assert(this.ids() =~= before.ids());
            assert(this.sources() =~= before.sources());
            assert forall|a: int, b: int|
                0 <= a < this.order().len() && 0 <= b < this.order().len() && a != b implies this.order()[a]
                != this.order()[b] by {
                if a < at && b < at {
                    assert(this.order()[a] == before.order()[a]);
                    assert(this.order()[b] == before.order()[b]);
                } else if a < at {
                    assert(this.order()[a] == before.order()[a]);
                } else {
                    assert(this.order()[b] == before.order()[b]);
                }
            }
            assert forall|j: int| 0 <= j < this.order().len() implies 0 <= #[trigger] this.order()[j]
                < this.providers().len() by {
                if j < at {
                    assert(this.order()[j] == before.order()[j]);
                }
            }
            assert forall|j: int| 0 <= j < this.sources().len() implies 0 <= #[trigger] this.sources()[j]
                < this.providers().len() by {
                assert(this.sources()[j] == before.sources()[j]);
            }
        }
        this
    }

    /// Registers a provider. It is asked once for its priority, its prefix
    /// and whether it is reserved to its prefix, and the launcher goes by
    /// these answers from then on.
    pub fn add_plugin(self, plugin: Box<dyn LauncherPlugin>) -> (r: Self)
        requires
            self.wf(),
        ensures
            r.wf(),
            r.providers().len() == self.providers().len() + 1,
            r.providers().take(self.providers().len() as int) == self.providers(),
            plugin.has_priority(r.providers().last().priority),
            plugin.has_prefix(r.providers().last().prefix),
            plugin.is_by_prefix_only(r.providers().last().by_prefix_only),
            r.order() == self.order().push(self.providers().len() as int),
            r.results() == self.results(),
            r.ids() == self.ids(),
            r.sources() == self.sources(),
    {
        let by_prefix_only = plugin.by_prefix_only();
        let prefix = plugin.prefix();
        let priority = plugin.priority();
        let r = self.register(plugin, priority, prefix, by_prefix_only);
        proof {
            assert(r.providers().take(self.providers().len() as int) =~= self.providers());
            assert(r.providers().last().prefix == crate::optional_text(prefix));
        }
        r
    }

    /// Starts every provider, in the order of registration, and then orders
    /// the providers for queries: the highest priority first, equal
    /// priorities in the order of registration.
    pub fn init(self) -> (r: Self)
        requires
            self.wf(),
        ensures
            r.wf(),
            r.providers() == self.providers(),
            r.plugins() == self.plugins(),
            r.order() == ranked(priorities(self.providers())),
            r.results() == self.results(),
            r.ids() == self.ids(),
            r.sources() == self.sources(),
    {
        let ghost before = self;
        let mut this = self;
        let mut keys: Vec<i64> = Vec::new();
        let mut i: usize = 0;
        while i < this.registered.len()
            invariant
                0 <= i <= this.registered@.len(),
                this == before,
                before.coherent(),
                keys@.len() == i,
                forall|j: int| 0 <= j < i ==> keys@[j] == priorities(before.providers())[j],
            decreases this.registered@.len() - i,
        {
            this.plugins[i].init();
            keys.push(this.registered[i].priority as i64);
            i = i + 1;
        }
        proof {
            assert(keys@ =~= priorities(before.providers()));
            crate::ranking::lemma_ranked_is_permutation(keys@);
        }
        this.order = top_ranked(&keys, keys.len());
        proof {
            assert(this.order() =~= ranked(keys@));
            assert(this.providers() =~= before.providers());
            assert(this.ids() =~= before.ids());
            assert(this.sources() =~= before.sources());
        }
        this
    }

    /// Drops the current results.
    pub fn clear_current_results(&mut self)
        requires
            old(self).wf(),
        ensures
            final(self).wf(),
            final(self).providers() == old(self).providers(),
            final(self).plugins() == old(self).plugins(),
            final(self).order() == old(self).order(),
            final(self).results().len() == 0,
            final(self).ids().len() == 0,
            final(self).sources().len() == 0,
    {
        self.current_results.clear();
        self.current_ids.clear();
        self.current_sources.clear();
        self.current_results_by_id.clear();
        proof {
            crate::seqs::lemma_empty::<Box<dyn LauncherListItem>>();
            assert(self.providers() =~= old(self).providers());
            assert(self.order() =~= old(self).order());
            assert forall|id: Seq<char>| !self.ids().contains(id) by {}
        }
    }

    /// Takes items into the current results, behind those that are there,
    /// each with the identifier it gave and the provider it came from.
    pub fn install(
        &mut self,
        source: usize,
        items: Vec<Box<dyn LauncherListItem>>,
        ids: Vec<String>,
    )
        requires
            old(self).wf(),
            source < old(self).providers().len(),
            ids@.len() == items@.len(),
            items_have_ids(items@, Seq::new(ids@.len(), |i: int| ids@[i]@)),
        ensures
            final(self).wf(),
            final(self).providers() == old(self).providers(),
            final(self).plugins() == old(self).plugins(),
            final(self).order() == old(self).order(),
            final(self).results() == old(self).results() + items@,
            final(self).ids() == old(self).ids() + Seq::new(ids@.len(), |i: int| ids@[i]@),
            final(self).sources() == old(self).sources() + Seq::new(
                ids@.len(),
                |i: int| source as int,
            ),
    {
        let ghost given = Seq::new(ids@.len(), |i: int| ids@[i]@);
        let ghost taken = items@;
        let mut k: usize = 0;
        while k < ids.len()
            invariant
                0 <= k <= ids@.len(),
                given == Seq::new(ids@.len(), |i: int| ids@[i]@),
                source < old(self).providers().len(),
                self.plugins == old(self).plugins,
                self.registered == old(self).registered,
                self.order == old(self).order,
                self.current_results == old(self).current_results,
                old(self).wf(),
                self.ids() == old(self).ids() + given.take(k as int),
                self.sources() == old(self).sources() + Seq::new(k as nat, |i: int| source as int),
                index_matches(self.ids(), self.index()),
            decreases ids@.len() - k,
        {
            let ghost ids_before = self.ids();
            let ghost sources_before = self.sources();
            let ghost index_before = self.index();
            let at = self.current_ids.len();
            let id = ids[k].clone();
            self.current_results_by_id.insert(ids[k].clone(), at);
            self.current_ids.push(id);
            self.current_sources.push(source);
            proof {
                let id_text = ids@[k as int]@;
                assert(given.take(k + 1) =~= given.take(k as int).push(id_text));
                assert(self.ids() =~= ids_before.push(id_text));
                assert(self.sources() =~= sources_before.push(source as int));
                assert(self.sources() =~= old(self).sources() + Seq::new(
                    (k + 1) as nat,
                    |i: int| source as int,
                ));
                assert(self.index() == index_before.insert(id_text, at));
                assert forall|other: Seq<char>| #[trigger]
                    self.index().contains_key(other) <==> self.ids().contains(other) by {
                    if self.ids().contains(other) {
                        let j = choose|j: int| 0 <= j < self.ids().len() && self.ids()[j] == other;
                        if j < at {
                            assert(ids_before[j] == other);
                            assert(ids_before.contains(other));
                        }
                    }
                    if index_before.contains_key(other) {
                        assert(ids_before.contains(other));
                        let j = choose|j: int| 0 <= j < ids_before.len() && ids_before[j] == other;
                        assert(self.ids()[j] == other);
                    }
                    if other == id_text {
                        assert(self.ids()[at as int] == other);
                    }
                }
                assert forall|other: Seq<char>| #[trigger]
                    self.index().contains_key(other) implies {
                    &&& self.index()[other] < self.ids().len()
                    &&& self.ids()[self.index()[other] as int] == other
                    &&& forall|j: int| self.index()[other] < j < self.ids().len() ==> self.ids()[j] != other
                } by {
                    if other != id_text {
                        assert(index_before.contains_key(other));
                        assert(self.ids()[index_before[other] as int] == ids_before[index_before[other] as int]);
                        assert forall|j: int|
                            self.index()[other] < j < self.ids().len() implies self.ids()[j]
                            != other by {
                            if j < at {
                                assert(self.ids()[j] == ids_before[j]);
                            }
                        }
                    }
                }
            }
            k = k + 1;
        }
        let mut items = items;
        self.current_results.append(&mut items);
        proof {
            crate::seqs::lemma_concat(old(self).current_results@, taken);
            assert(given.take(k as int) == given);
            assert(self.providers() =~= old(self).providers());
            assert(self.order() =~= old(self).order());
            let had = old(self).results().len() as int;
            assert forall|i: int|
                0 <= i < self.results().len() && i < self.ids().len() implies (
            #[trigger] self.results()[i]).has_id(self.ids()[i]) by {
                if i < had {
                    assert(self.results()[i] == old(self).results()[i]);
                    assert(self.ids()[i] == old(self).ids()[i]);
                } else {
                    assert(self.results()[i] == taken[i - had]);
                    assert(self.ids()[i] == given[i - had]);
                }
            }
            assert forall|j: int| 0 <= j < self.sources().len() implies 0 <= #[trigger] self.sources()[j]
                < self.providers().len() by {
                if j < old(self).sources().len() {
                    assert(self.sources()[j] == old(self).sources()[j]);
                }
            }
        }
    }
    /// Where a query goes.
    pub fn route(&self, query: &str) -> (r: Route)
        requires
            self.wf(),
        ensures
            r@ == route_of(self.providers(), query@),
            r matches Route::Scoped { provider, .. } ==> provider < self.providers().len(),
    {
        if query.is_empty() {
            return Route::Default;
        }
        proof {
            lemma_first_space(query@);
        }
        match split_at_first_space(query) {
            None => Route::Unscoped,
            Some((word, rest)) => {
                proof {
                    lemma_find_prefix(self.providers(), word@);
                }
                let mut i: usize = self.registered.len();
                proof {
                    assert(self.providers().take(i as int) == self.providers());
                }
                while i > 0
                    invariant
                        0 <= i <= self.registered@.len(),
                        query@.len() > 0,
                        first_space(query@) < query@.len(),
                        word@ == query@.take(first_space(query@)),
                        rest@ == query@.skip(first_space(query@) + 1),
                        find_prefix(self.providers(), word@) == find_prefix(
                            self.providers().take(i as int),
                            word@,
                        ),
                    decreases i,
                {
                    proof {
                        let shown = self.providers().take(i as int);
                        assert(shown.drop_last() == self.providers().take(i - 1));
                        assert(shown.last() == self.registered@[i - 1].info());
                    }
                    let found = match &self.registered[i - 1].prefix {
                        Some(p) => *p == word,
                        None => false,
                    };
                    if found {
                        proof {
                            assert(self.providers().take(i as int).last().prefix == Some(word@));
                        }
                        return Route::Scoped { provider: i - 1, rest };
                    }
                    i = i - 1;
                }
                Route::Unscoped
            },
        }
    }

    /// The providers that take part in queries without a prefix, in the order
    /// in which they are asked.
    pub fn always_shown(&self) -> (r: Vec<usize>)
        requires
            self.wf(),
        ensures
            as_ints(r@) == shown(self.providers(), self.order()),
            forall|j: int| 0 <= j < r@.len() ==> #[trigger] r@[j] < self.providers().len(),
    {
        let mut r: Vec<usize> = Vec::new();
        let mut i: usize = 0;
        while i < self.order.len()
            invariant
                0 <= i <= self.order@.len(),
                self.wf(),
                as_ints(r@) == shown(self.providers(), self.order().take(i as int)),
                forall|j: int| 0 <= j < r@.len() ==> #[trigger] r@[j] < self.providers().len(),
            decreases self.order@.len() - i,
        {
            let at = self.order[i];
            proof {
                let seen = self.order().take(i + 1);
                assert(seen.drop_last() == self.order().take(i as int));
                assert(seen.last() == at as int);
                assert(self.order()[i as int] == at as int);
                assert(self.providers()[at as int] == self.registered@[at as int].info());
            }
            if !self.registered[at].by_prefix_only {
                r.push(at);
                proof {
                    assert(as_ints(r@) =~= shown(self.providers(), self.order().take(i + 1)));
                }
            }
            i = i + 1;
        }
        proof {
            assert(self.order().take(i as int) == self.order());
        }
        r
    }

    /// Asks one provider for its identifiers' worth of items: its default
    /// list where there is no query, its matches for the query otherwise, and
    /// takes what it hands out into the current results.
    fn ask(&mut self, source: usize, query: Option<&str>) -> (count: Ghost<nat>)
        requires
            old(self).wf(),
            source < old(self).providers().len(),
        ensures
            final(self).wf(),
            final(self).providers() == old(self).providers(),
            final(self).plugins() == old(self).plugins(),
            final(self).order() == old(self).order(),
            final(self).sources() == old(self).sources() + Seq::new(count@, |i: int| source as int),
            final(self).ids().len() == old(self).ids().len() + count@,
            final(self).results().len() == old(self).results().len() + count@,
            forall|from: int, to: int|
                0 <= from <= to <= old(self).results().len() ==> #[trigger] final(self).results().subrange(from, to) == old(self).results().subrange(from, to),
            final(self).block_is_answer(
                asked_text(query),
                source as int,
                old(self).results().len() as int,
                count@,
            ),
    {
        let items = match query {
            Some(q) => self.plugins[source].filter(q),
            None => self.plugins[source].default_list(),
        };
        let ghost handed = items@;
        let mut ids: Vec<String> = Vec::new();
        let n = items.len();
        let mut k: usize = 0;
        while k < n
            invariant
                0 <= k <= n,
                n == items@.len(),
                ids@.len() == k,
                forall|j: int| 0 <= j < k ==> (#[trigger] items@[j]).has_id(ids@[j]@),
            decreases n - k,
        {
            ids.push(items[k].id());
            k = k + 1;
        }
        self.install(source, items, ids);
        proof {
            let before = old(self).results();
            crate::seqs::lemma_concat(before, handed);
            crate::seqs::lemma_concat_parts(before, handed, 0, 0);
            assert forall|from: int, to: int| 0 <= from <= to <= before.len() implies #[trigger] self.results().subrange(
                from,
                to,
            ) == before.subrange(from, to) by {
                crate::seqs::lemma_concat_parts(before, handed, from, to);
            }
            assert(self.results().subrange(before.len() as int, before.len() + n) == handed);
        }
        Ghost(n as nat)
    }

    /// Asks the given providers in turn and makes what they hand out the
    /// current results.
    fn gather(&mut self, asked: &Vec<usize>, query: Option<&str>)
        requires
            old(self).wf(),
            forall|j: int| 0 <= j < asked@.len() ==> #[trigger] asked@[j] < old(self).providers().len(),
        ensures
            final(self).wf(),
            final(self).providers() == old(self).providers(),
            final(self).plugins() == old(self).plugins(),
            final(self).order() == old(self).order(),
            exists|counts: Seq<nat>|
                {
                    &&& counts.len() == asked@.len()
                    &&& final(self).sources() == blocks(as_ints(asked@), counts)
                    &&& #[trigger] final(self).handed_out(
                        asked_text(query),
                        as_ints(asked@),
                        counts,
                    )
                },
    {
        self.clear_current_results();
        let ghost mut counts: Seq<nat> = Seq::empty();
        let ghost wanted = asked_text(query);
        let mut t: usize = 0;
        proof {
            assert(self.sources() =~= blocks(as_ints(asked@).take(0), counts));
        }
        while t < asked.len()
            invariant
                0 <= t <= asked@.len(),
                self.wf(),
                self.providers() == old(self).providers(),
                self.plugins() == old(self).plugins(),
                self.order() == old(self).order(),
                wanted == asked_text(query),
                forall|j: int| 0 <= j < asked@.len() ==> #[trigger] asked@[j] < self.providers().len(),
                counts.len() == t,
                self.sources() == blocks(as_ints(asked@).take(t as int), counts),
                block_start(counts, t as int) == self.results().len(),
                forall|j: int|
                    0 <= j < t ==> block_start(counts, j) + #[trigger] counts[j]
                        <= self.results().len(),
                forall|j: int|
                    0 <= j < t ==> self.block_is_answer(
                        wanted,
                        #[trigger] as_ints(asked@)[j],
                        block_start(counts, j),
                        counts[j],
                    ),
            decreases asked@.len() - t,
        {
            let source = asked[t];
            let ghost before = *self;
            let count = self.ask(source, query);
            proof {
                let seen = as_ints(asked@).take(t + 1);
                let more = counts.push(count@);
                assert(seen.drop_last() == as_ints(asked@).take(t as int));
                assert(more.drop_last() == counts);
                assert(seen.last() == source as int);
                assert(more.last() == count@);
                lemma_block_start_push(counts, count@, t as int);
                assert(block_start(more, t + 1) == block_start(more, t as int) + more[t as int]);
                assert forall|j: int| 0 <= j < t + 1 implies block_start(more, j) + #[trigger] more[j]
                    <= self.results().len() by {
                    lemma_block_start_push(counts, count@, j);
                    if j < t {
                        assert(more[j] == counts[j]);
                    }
                }
                assert forall|j: int| 0 <= j < t + 1 implies self.block_is_answer(
                    wanted,
                    #[trigger] as_ints(asked@)[j],
                    block_start(more, j),
                    more[j],
                ) by {
                    lemma_block_start_push(counts, count@, j);
                    if j < t {
                        assert(more[j] == counts[j]);
                        let from = block_start(counts, j);
                        let to = from + counts[j];
                        assert(to <= before.results().len());
                        assert(before.block_is_answer(wanted, as_ints(asked@)[j], from, counts[j]));
                        assert(self.results().subrange(from, to) == before.results().subrange(
                            from,
                            to,
                        ));
                    } else {
                        assert(as_ints(asked@)[j] == source as int);
                    }
                }
                counts = more;
            }
            t = t + 1;
        }
        proof {
            assert(as_ints(asked@).take(t as int) == as_ints(asked@));
            assert(self.handed_out(wanted, as_ints(asked@), counts));
        }
    }

    /// Makes the default lists of the providers that always show the current
    /// results, in the order in which providers are asked, each list as its
    /// provider handed it out.
    pub fn get_default_results(&mut self) -> (results: &Vec<Box<dyn LauncherListItem>>)
        requires
            old(self).wf(),
        ensures
            final(self).wf(),
            final(self).providers() == old(self).providers(),
            final(self).order() == old(self).order(),
            final(self).plugins() == old(self).plugins(),
            results@ == final(self).results(),
            final(self).holds_answer_to(RoutePlan::Default),
            final(self).answers(RoutePlan::Default, Seq::empty()),
    {
        let asked = self.always_shown();
        self.gather(&asked, None);
        proof {
            let wanted = targets(self.providers(), self.order(), RoutePlan::Default);
            assert(as_ints(asked@) == wanted);
            let counts = choose|counts: Seq<nat>|
                {
                    &&& counts.len() == asked@.len()
                    &&& self.sources() == blocks(as_ints(asked@), counts)
                    &&& #[trigger] self.handed_out(None, as_ints(asked@), counts)
                };
            assert(counts.len() == wanted.len() && self.sources() == blocks(wanted, counts));
            assert(self.handed_out(
                asked_query(RoutePlan::Default, Seq::empty()),
                wanted,
                counts,
            ));
        }
        &self.current_results
    }

    /// Answers a query and makes the answer the current results. The empty
    /// query gives the default results. A query behind a registered prefix
    /// goes to that provider alone, without the prefix. Any other query goes
    /// to the providers that always show, in the order in which providers are
    /// asked.
    pub fn search(&mut self, query: &str) -> (results: &Vec<Box<dyn LauncherListItem>>)
        requires
            old(self).wf(),
        ensures
            final(self).wf(),
            final(self).providers() == old(self).providers(),
            final(self).order() == old(self).order(),
            final(self).plugins() == old(self).plugins(),
            results@ == final(self).results(),
            final(self).holds_answer_to(route_of(old(self).providers(), query@)),
            final(self).answers(route_of(old(self).providers(), query@), query@),
    {
        let ghost plan = route_of(self.providers(), query@);
        let ghost wanted = targets(self.providers(), self.order(), plan);
        let ghost given = asked_query(plan, query@);
        let asked = match self.route(query) {
            Route::Default => {
                let asked = self.always_shown();
                self.gather(&asked, None);
                asked
            },
            Route::Scoped { provider, rest } => {
                let mut asked: Vec<usize> = Vec::new();
                asked.push(provider);
                proof {
                    assert(as_ints(asked@) =~= seq![provider as int]);
                }
                self.gather(&asked, Some(rest.as_str()));
                asked
            },
            Route::Unscoped => {
                let asked = self.always_shown();
                self.gather(&asked, Some(query));
                asked
            },
        };
        proof {
            assert(as_ints(asked@) == wanted);
            let counts = choose|counts: Seq<nat>|
                {
                    &&& counts.len() == asked@.len()
                    &&& self.sources() == blocks(as_ints(asked@), counts)
                    &&& #[trigger] self.handed_out(given, as_ints(asked@), counts)
                };
            assert(counts.len() == wanted.len() && self.sources() == blocks(wanted, counts));
            assert(self.handed_out(given, wanted, counts));
        }
        &self.current_results
    }

    /// The position of the current result with this identifier: of the last
    /// one, where several gave the same. An identifier that is not among the
    /// current results, such as one of an earlier query, is refused.
    pub fn resolve_id(&self, id: &str) -> (r: Result<usize, LaunchError>)
        requires
            self.wf(),
        ensures
            match r {
                Ok(at) => {
                    &&& self.knows(id@)
                    &&& at as int == self.position_of(id@)
                    &&& at < self.results().len()
                    &&& self.ids()[at as int] == id@
                    &&& self.results()[at as int].has_id(id@)
                    &&& forall|j: int| at < j < self.ids().len() ==> self.ids()[j] != id@
                },
                Err(e) => !self.knows(id@) && e.text() == "Item not found"@,
            },
    {
        match self.current_results_by_id.get(id) {
            Some(at) => {
                proof {
                    assert(self.index().contains_key(id@));
                    assert(self.results()[*at as int].has_id(self.ids()[*at as int]));
                }
                Ok(*at)
            },
            None => Err(LaunchError::CouldNotLaunch("Item not found".to_owned())),
        }
    }

    /// Executes the current result at a position. The outcome is that of the
    /// item, except that a position behind the last result is refused.
    pub fn execute_item(&self, index: usize) -> (r: Result<(), LaunchError>)
        requires
            self.wf(),
        ensures
            index < self.results().len() ==> self.results()[index as int].launches(r),
            index >= self.results().len() ==> failed_with(r, "Invalid index"@),
    {
        if index < self.current_results.len() {
            self.current_results[index].execute()
        } else {
            Err(LaunchError::CouldNotLaunch("Invalid index".to_owned()))
        }
    }

    /// Executes the current result with this identifier. The outcome is that
    /// of the item, except that an identifier that is not among the current
    /// results is refused, and nothing is executed then.
    pub fn execute_item_by_id(&self, id: &str) -> (r: Result<(), LaunchError>)
        requires
            self.wf(),
        ensures
            self.knows(id@) ==> {
                &&& 0 <= self.position_of(id@) < self.results().len()
                &&& self.results()[self.position_of(id@)].has_id(id@)
                &&& self.results()[self.position_of(id@)].launches(r)
            },
            !self.knows(id@) ==> failed_with(r, "Item not found"@),
    {
        match self.resolve_id(id) {
            Ok(at) => self.current_results[at].execute(),
            Err(e) => Err(e),
        }
    }

    /// The current results.
    pub fn current_results(&self) -> (results: &Vec<Box<dyn LauncherListItem>>)
        ensures
            results@ == self.results(),
    {
        &self.current_results
    }
}

} // verus!
