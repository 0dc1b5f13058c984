//! Installed applications: which of them are listed, and which match a
//! query.

use crate::fuzzy::{
    best_matches, key_scores, score_of, FuzzyMatcher, FuzzySearchable, SearchKeys,
};
use crate::plugin::PluginConfig;
use crate::ranking::as_ints;
use vstd::prelude::*;

verus! {

/// How many applications a query shows at most.
pub const MAX_MATCHES: usize = 5;

/// What was read of one installed application.
pub struct AppRecord {
    /// Whether the application asks to be shown in the current desktop.
    pub should_show: bool,
    pub id: Option<String>,
    pub name: Option<String>,
    pub comment: Option<String>,
    pub icon: Option<String>,
    /// Where its desktop entry stands.
    pub path: String,
}

/// An application that can be launched.
#[derive(Debug, Clone)]
pub struct DesktopEntry {
    pub id: String,
    pub name: String,
    pub description: Option<String>,
    pub icon: String,
    pub path: String,
}

/// The text of an optional string, or a default.
pub open spec fn text_or(s: Option<String>, default: Seq<char>) -> Seq<char> {
    match s {
        Some(t) => t@,
        None => default,
    }
}

/// The texts of an optional string.
pub open spec fn optional_text(s: Option<String>) -> Option<Seq<char>> {
    match s {
        Some(t) => Some(t@),
        None => None,
    }
}

/// What a desktop entry holds, as texts.
pub struct DesktopEntryView {
    pub id: Seq<char>,
    pub name: Seq<char>,
    pub description: Option<Seq<char>>,
    pub icon: Seq<char>,
    pub path: Seq<char>,
}

impl View for DesktopEntry {
    type V = DesktopEntryView;

    open spec fn view(&self) -> DesktopEntryView {
        DesktopEntryView {
            id: self.id@,
            name: self.name@,
            description: optional_text(self.description),
            icon: self.icon@,
            path: self.path@,
        }
    }
}

/// The entry that is listed for an application: what was read of it, with an
/// empty identifier, the name "Name not found" and the icon of executables
/// where it gave none.
pub open spec fn entry_of(record: AppRecord) -> DesktopEntryView {
    DesktopEntryView {
        id: text_or(record.id, ""@),
        name: text_or(record.name, "Name not found"@),
        description: optional_text(record.comment),
        icon: text_or(record.icon, "application-x-executable"@),
        path: record.path@,
    }
}

/// The entries that are listed for the applications read: those of the
/// applications that ask to be shown, in the order read.
pub open spec fn listed(records: Seq<AppRecord>) -> Seq<DesktopEntryView>
    decreases records.len(),
{
    if records.len() == 0 {
        Seq::empty()
    } else if records.last().should_show {
        listed(records.drop_last()).push(entry_of(records.last()))
    } else {
        listed(records.drop_last())
    }
}

/// The entries as texts.
pub open spec fn views(entries: Seq<DesktopEntry>) -> Seq<DesktopEntryView> {
    Seq::new(entries.len(), |i: int| entries[i]@)
}

/// The score of each entry for a query: that of its name.
pub open spec fn name_scores(query: Seq<char>, entries: Seq<DesktopEntry>) -> Seq<Option<u16>> {
    Seq::new(entries.len(), |i: int| score_of(query, entries[i].name@))
}

/// The entries that are shown for a query: all of them for the empty query,
/// and otherwise the best matches of the query among their names.
pub open spec fn matching(query: Seq<char>, entries: Seq<DesktopEntry>) -> Seq<DesktopEntryView> {
    if query.len() == 0 {
        views(entries)
    } else {
        let best = best_matches(name_scores(query, entries), MAX_MATCHES);
        Seq::new(best.len(), |j: int| entries[best[j]]@)
    }
}

fn copy_text(s: &Option<String>) -> (r: Option<String>)
    ensures
        optional_text(r) == optional_text(*s),
{
    match s {
        Some(t) => Some(t.clone()),
        None => None,
    }
}

fn text_or_default(s: &Option<String>, default: &str) -> (r: String)
    ensures
        r@ == text_or(*s, default@),
{
    match s {
        Some(t) => t.clone(),
        None => default.to_owned(),
    }
}

impl DesktopEntry {
    /// An entry with the same texts.
    pub fn duplicate(&self) -> (r: Self)
        ensures
            r@ == self@,
    {
        DesktopEntry {
            id: self.id.clone(),
            name: self.name.clone(),
            description: copy_text(&self.description),
            icon: self.icon.clone(),
            path: self.path.clone(),
        }
    }

    /// The entry that is listed for an application.
    pub fn from_record(record: &AppRecord) -> (r: Self)
        ensures
            r@ == entry_of(*record),
    {
        DesktopEntry {
            id: text_or_default(&record.id, ""),
            name: text_or_default(&record.name, "Name not found"),
            description: copy_text(&record.comment),
            icon: text_or_default(&record.icon, "application-x-executable"),
            path: record.path.clone(),
        }
    }

    pub fn id(&self) -> (r: String)
        ensures
            r@ == self@.id,
    {
        self.id.clone()
    }

    pub fn title(&self) -> (r: String)
        ensures
            r@ == self@.name,
    {
        self.name.clone()
    }

    pub fn description(&self) -> (r: Option<String>)
        ensures
            optional_text(r) == self@.description,
    {
        copy_text(&self.description)
    }

    pub fn icon(&self) -> (r: String)
        ensures
            r@ == self@.icon,
    {
        self.icon.clone()
    }

    /// Where the desktop entry stands, for launching the application.
    pub fn path(&self) -> (r: String)
        ensures
            r@ == self@.path,
    {
        self.path.clone()
    }
}

impl FuzzySearchable for DesktopEntry {
    /// An application is found by its name.
    open spec fn has_primary(&self, key: Seq<char>) -> bool {
        key == self@.name
    }

    /// An application has no further keys.
    open spec fn has_secondary(&self, keys: Seq<Seq<char>>) -> bool {
        keys.len() == 0
    }

    fn primary_key(&self) -> (r: String) {
        self.name.clone()
    }

    fn secondary_keys(&self) -> (r: Vec<String>) {
        Vec::new()
    }
}

/// The entries that are listed for the applications read: those of the
/// applications that ask to be shown, in the order read.
pub fn get_desktop_entries(records: &Vec<AppRecord>) -> (entries: Vec<DesktopEntry>)
    ensures
        views(entries@) == listed(records@),
{
    let mut entries: Vec<DesktopEntry> = Vec::new();
    let mut i: usize = 0;
    proof {
        assert(views(entries@) =~= listed(records@.take(0)));
    }
    while i < records.len()
        invariant
            0 <= i <= records@.len(),
            views(entries@) == listed(records@.take(i as int)),
        decreases records@.len() - i,
    {
        proof {
            let seen = records@.take(i + 1);
            assert(seen.drop_last() == records@.take(i as int));
            assert(seen.last() == records@[i as int]);
        }
        if records[i].should_show {
            let ghost before = views(entries@);
            entries.push(DesktopEntry::from_record(&records[i]));
            proof {
                assert(views(entries@) =~= before.push(entry_of(records@[i as int])));
            }
        }
        i = i + 1;
    }
    proof {
        assert(records@.take(i as int) == records@);
    }
    entries
}

/// The provider of installed applications.
pub struct DrunPlugin;

impl DrunPlugin {
    pub fn new() -> (r: Self) {
        DrunPlugin
    }

    /// What the provider declares of itself.
    pub fn config(&self) -> (config: PluginConfig)
        ensures
            config.name@ == "drun"@,
            config.priority == 1000,
            optional_text(config.description) == Some(
                "List and launch an installed application"@,
            ),
            optional_text(config.prefix) == Some("app"@),
            !config.by_prefix_only,
    {
        PluginConfig::new("drun").with_priority(1000).with_description(
            "List and launch an installed application",
        ).with_prefix("app")
    }

    /// The entries that are shown while there is no query: all of them.
    pub fn default_list(&self, entries: &Vec<DesktopEntry>) -> (items: Vec<DesktopEntry>)
        ensures
            views(items@) == views(entries@),
    {
        let mut items: Vec<DesktopEntry> = Vec::new();
        let mut i: usize = 0;
        while i < entries.len()
            invariant
                0 <= i <= entries@.len(),
                items@.len() == i,
                forall|j: int| 0 <= j < i ==> #[trigger] items@[j]@ == entries@[j]@,
            decreases entries@.len() - i,
        {
            items.push(entries[i].duplicate());
            i = i + 1;
        }
        proof {
            assert(views(items@) =~= views(entries@));
        }
        items
    }

    /// The entries that are shown for a query: all of them for the empty
    /// query, and otherwise the five best matches of the query among their
    /// names, the best first.
    pub fn filter(&self, entries: &Vec<DesktopEntry>, query: &str) -> (items: Vec<DesktopEntry>)
        ensures
            views(items@) == matching(query@, entries@),
            query@.len() == 0 ==> views(items@) == views(entries@),
    {
        if query.is_empty() {
            return self.default_list(entries);
        }
        let mut keys: Vec<SearchKeys> = Vec::new();
        let mut i: usize = 0;
        while i < entries.len()
            invariant
                0 <= i <= entries@.len(),
                keys@.len() == i,
                forall|j: int|
                    0 <= j < i ==> (#[trigger] keys@[j]).primary@ == entries@[j].name@
                        && keys@[j].secondary@.len() == 0,
            decreases entries@.len() - i,
        {
            keys.push(SearchKeys { primary: entries[i].primary_key(), secondary: Vec::new() });
            i = i + 1;
        }
        proof {
            assert forall|j: int| 0 <= j < keys@.len() implies key_scores(query@, keys@)[j]
                == name_scores(query@, entries@)[j] by {
                assert(keys@[j].secondary_texts() =~= Seq::<Seq<char>>::empty());
            }
            assert(key_scores(query@, keys@) =~= name_scores(query@, entries@));
        }
        let mut matcher = FuzzyMatcher::new();
        let picked = matcher.match_keys(query, &keys, MAX_MATCHES);
        let ghost best = best_matches(name_scores(query@, entries@), MAX_MATCHES);
        let mut items: Vec<DesktopEntry> = Vec::new();
        let mut j: usize = 0;
        while j < picked.len()
            invariant
                0 <= j <= picked@.len(),
                keys@.len() == entries@.len(),
                as_ints(picked@) == best,
                forall|t: int| 0 <= t < picked@.len() ==> #[trigger] picked@[t] < keys@.len(),
                items@.len() == j,
                forall|t: int| 0 <= t < j ==> #[trigger] items@[t]@ == entries@[best[t]]@,
            decreases picked@.len() - j,
        {
            let at: usize = picked[j];
            proof {
                assert(as_ints(picked@)[j as int] == at as int);
            }
            items.push(entries[at].duplicate());
            j = j + 1;
        }
        proof {
            assert(as_ints(picked@).len() == picked@.len());
            assert(views(items@) =~= matching(query@, entries@));
        }
        items
    }
}

/// The provider of installed applications.
pub fn new() -> (r: DrunPlugin) {
    DrunPlugin::new()
}

} // verus!
