//! Search for files: which directories are walked, what of them goes into the
//! index, when a walk replaces the index, and which files match a query.

use crate::fuzzy::{
    best_matches, better, key_scores, score_of, secondary_score, FuzzyMatcher, FuzzySearchable,
    SearchKeys,
};
use crate::plugin::PluginConfig;
use crate::ranking::as_ints;
use crate::text::{
    distinct, file_name, file_name_of, holds, insert_distinct, is_hidden, list_holds,
    starts_with_dot, texts,
};
use crate::LaunchError;
use vstd::prelude::*;
use vstd::string::StringExecFns;

verus! {

/// How many files a query shows at most.
pub const MAX_MATCHES: usize = 10;

/// How long one walk of the search paths may take, in milliseconds. A walk
/// that takes longer is given up, and what it found is dropped.
pub const INDEX_TIMEOUT_MS: u64 = 2000;

/// A file of the index.
#[derive(Debug, Clone)]
pub struct FileEntry {
    path: String,
    name: String,
}

impl FileEntry {
    /// The path of the file.
    pub closed spec fn path_text(&self) -> Seq<char> {
        self.path@
    }

    /// The name of the file.
    pub closed spec fn name_text(&self) -> Seq<char> {
        self.name@
    }

    /// The name is the file name of the path.
    pub open spec fn wf(&self) -> bool {
        file_name_of(self.path_text()) == Some(self.name_text())
    }

    /// The entry of a path, unless the path has no file name.
    pub fn new(path: &str) -> (entry: Option<Self>)
        ensures
            match entry {
                Some(e) => e.wf() && e.path_text() == path@,
                None => file_name_of(path@).is_none(),
            },
    {
        match file_name(path) {
            Some(name) => Some(FileEntry { path: path.to_owned(), name }),
            None => None,
        }
    }

    /// An entry with the same path and name.
    pub fn duplicate(&self) -> (r: Self)
        ensures
            r.path_text() == self.path_text(),
            r.name_text() == self.name_text(),
    {
        FileEntry { path: self.path.clone(), name: self.name.clone() }
    }

    /// A file is told by its path.
    pub fn id(&self) -> (r: String)
        ensures
            r@ == self.path_text(),
    {
        self.path.clone()
    }

    /// A file is shown by its name.
    pub fn title(&self) -> (r: String)
        ensures
            r@ == self.name_text(),
    {
        self.name.clone()
    }

    /// The second line shows the path.
    pub fn description(&self) -> (r: Option<String>)
        ensures
            r.is_some(),
            r.unwrap()@ == self.path_text(),
    {
        Some(self.path.clone())
    }

    /// The icon of a file whose kind has none of its own.
    pub fn fallback_icon() -> (r: String)
        ensures
            r@ == "text-x-generic"@,
    {
        "text-x-generic".to_owned()
    }

    /// The path, for opening the file.
    pub fn path(&self) -> (r: &String)
        ensures
            r@ == self.path_text(),
    {
        &self.path
    }

    /// What is reported when neither way of opening the file worked: both
    /// failures, the first way's first.
    pub fn both_failed(first: &str, second: &str) -> (e: LaunchError)
        ensures
            e.text() == "Both xdg-open and GIO failed: "@ + first@ + " / "@ + second@,
    {
        LaunchError::CouldNotLaunch(
            String::from_str("Both xdg-open and GIO failed: ").concat(first).concat(" / ").concat(
                second,
            ),
        )
    }
}

impl FuzzySearchable for FileEntry {
    /// A file is found first of all by its name.
    open spec fn has_primary(&self, key: Seq<char>) -> bool {
        key == self.name_text()
    }

    /// A file is also found by its path, for searches by directory.
    open spec fn has_secondary(&self, keys: Seq<Seq<char>>) -> bool {
        keys == seq![self.path_text()]
    }

    fn primary_key(&self) -> (r: String) {
        self.name.clone()
    }

    fn secondary_keys(&self) -> (r: Vec<String>)
        ensures
            texts(r@) == seq![self.path_text()],
    {
        let mut keys: Vec<String> = Vec::new();
        keys.push(self.path.clone());
        proof {
            assert(texts(keys@) =~= seq![self.path_text()]);
        }
        keys
    }
}

/// The score of a file for a query: the better of its name and, at nine
/// tenths, its path.
pub open spec fn file_score(query: Seq<char>, entry: FileEntry) -> Option<u16> {
    better(score_of(query, entry.name_text()), secondary_score(query, entry.path_text()))
}

/// The score of each file of an index for a query.
pub open spec fn file_scores(query: Seq<char>, files: Seq<FileEntry>) -> Seq<Option<u16>> {
    Seq::new(files.len(), |i: int| file_score(query, files[i]))
}

/// The files that are shown for a query, as positions in the index: none
/// for the empty query, and otherwise the best matches.
pub open spec fn matching(query: Seq<char>, files: Seq<FileEntry>) -> Seq<int> {
    if query.len() == 0 {
        Seq::empty()
    } else {
        best_matches(file_scores(query, files), MAX_MATCHES)
    }
}

/// Whether a name is one of those that are not walked unless told
/// otherwise.
pub open spec fn skipped_by_default(name: Seq<char>) -> bool {
    name == "vendor"@ || name == "node_modules"@ || name == "cache"@ || name == "zig-cache"@
}

/// The names of directories that are not walked unless told otherwise.
pub fn default_skip_list() -> (list: Vec<String>)
    ensures
        texts(list@) == seq!["vendor"@, "node_modules"@, "cache"@, "zig-cache"@],
        distinct(list@),
        forall|name: Seq<char>| holds(list@, name) <==> skipped_by_default(name),
{
    let mut list: Vec<String> = Vec::new();
    list.push("vendor".to_owned());
    list.push("node_modules".to_owned());
    list.push("cache".to_owned());
    list.push("zig-cache".to_owned());
    proof {
        assert(texts(list@) =~= seq!["vendor"@, "node_modules"@, "cache"@, "zig-cache"@]);
        reveal_strlit("vendor");
        reveal_strlit("node_modules");
        reveal_strlit("cache");
        reveal_strlit("zig-cache");
        assert("vendor"@.len() == 6 && "node_modules"@.len() == 12 && "cache"@.len() == 5
            && "zig-cache"@.len() == 9);
        assert forall|name: Seq<char>| holds(list@, name) <==> skipped_by_default(name) by {
            assert(list@[0]@ == "vendor"@ && list@[1]@ == "node_modules"@ && list@[2]@ == "cache"@
                && list@[3]@ == "zig-cache"@);
        }
    }
    list
}

/// How a walk of the search paths ended.
pub enum ScanOutcome {
    /// The walk went through: these are the files it found.
    Completed(Vec<FileEntry>),
    /// The walk took too long and was given up.
    TimedOut,
}

/// The search for files.
pub struct FileSearchPlugin {
    search_paths: Vec<String>,
    skip_dirs: Vec<String>,
    files: Vec<FileEntry>,
}

/// Adds each text of `more` to a list in which no text stands twice.
fn insert_all(list: &mut Vec<String>, more: Vec<String>)
    requires
        distinct(old(list)@),
    ensures
        distinct(final(list)@),
        forall|other: Seq<char>| #[trigger]
            holds(final(list)@, other) <==> (holds(old(list)@, other) || holds(more@, other)),
{
    let mut i: usize = 0;
    while i < more.len()
        invariant
            0 <= i <= more@.len(),
            distinct(list@),
            forall|other: Seq<char>|
                holds(list@, other) <==> (holds(old(list)@, other) || holds(
                    more@.take(i as int),
                    other,
                )),
        decreases more@.len() - i,
    {
        insert_distinct(list, more[i].clone());
        proof {
            let seen = more@.take(i + 1);
            assert forall|other: Seq<char>|
                holds(list@, other) <==> (holds(old(list)@, other) || holds(seen, other)) by {
                if holds(seen, other) {
                    let j = choose|j: int| 0 <= j < seen.len() && (#[trigger] seen[j])@ == other;
                    if j < i {
                        assert(more@.take(i as int)[j]@ == other);
                    }
                }
                if holds(more@.take(i as int), other) {
                    let j = choose|j: int|
                        0 <= j < i && (#[trigger] more@.take(i as int)[j])@ == other;
                    assert(seen[j]@ == other);
                }
                if other == more@[i as int]@ {
                    assert(seen[i as int]@ == other);
                }
            }
        }
        i = i + 1;
    }
    proof {
        assert(more@.take(i as int) =~= more@);
    }
}

impl FileSearchPlugin {
    /// The directories that are walked.
    pub closed spec fn paths(&self) -> Seq<String> {
        self.search_paths@
    }

    /// The names of directories that are not walked.
    pub closed spec fn skipped(&self) -> Seq<String> {
        self.skip_dirs@
    }

    /// The index: the files of the last walk that went through.
    pub closed spec fn index(&self) -> Seq<FileEntry> {
        self.files@
    }

    /// No path and no name stands twice.
    pub open spec fn wf(&self) -> bool {
        distinct(self.paths()) && distinct(self.skipped())
    }

    /// A search that walks the default directories and those of the
    /// configuration, skips the default names and those of the
    /// configuration, and has an empty index.
    pub fn new(
        default_paths: Vec<String>,
        configured_paths: Vec<String>,
        configured_skip_dirs: Vec<String>,
    ) -> (plugin: Self)
        ensures
            plugin.wf(),
            plugin.index().len() == 0,
            forall|path: Seq<char>|
                holds(plugin.paths(), path) <==> (holds(default_paths@, path) || holds(
                    configured_paths@,
                    path,
                )),
            forall|name: Seq<char>|
                holds(plugin.skipped(), name) <==> (skipped_by_default(name) || holds(
                    configured_skip_dirs@,
                    name,
                )),
    {
        let mut search_paths: Vec<String> = Vec::new();
        insert_all(&mut search_paths, default_paths);
        insert_all(&mut search_paths, configured_paths);
        let mut skip_dirs = default_skip_list();
        insert_all(&mut skip_dirs, configured_skip_dirs);
        FileSearchPlugin { search_paths, skip_dirs, files: Vec::new() }
    }

    /// What the provider declares of itself.
    pub fn config(&self) -> (config: PluginConfig)
        ensures
            config.name@ == "Files"@,
            config.priority == 500,
            config.description.is_some() && config.description.unwrap()@
                == "Search and open files"@,
            config.prefix.is_some() && config.prefix.unwrap()@ == "f"@,
            !config.by_prefix_only,
    {
        PluginConfig::new("Files").with_priority(500).with_description(
            "Search and open files",
        ).with_prefix("f")
    }

    /// Adds a directory to those that are walked. A path that does not
    /// exist, or that is no directory, is refused and changes nothing.
    pub fn add_search_path(&mut self, path: &str, exists: bool, is_dir: bool) -> (r: Result<
        (),
        String,
    >)
        requires
            old(self).wf(),
        ensures
            final(self).wf(),
            final(self).skipped() == old(self).skipped(),
            final(self).index() == old(self).index(),
            match r {
                Ok(_) => exists && is_dir && forall|other: Seq<char>|
                    holds(final(self).paths(), other) <==> (holds(old(self).paths(), other)
                        || other == path@),
                Err(message) => final(self).paths() == old(self).paths() && if !exists {
                    message@ == "Path does not exist: "@ + path@
                } else {
                    !is_dir && message@ == "Path is not a directory: "@ + path@
                },
            },
    {
        if !exists {
            return Err(String::from_str("Path does not exist: ").concat(path));
        }
        if !is_dir {
            return Err(String::from_str("Path is not a directory: ").concat(path));
        }
        insert_distinct(&mut self.search_paths, path.to_owned());
        Ok(())
    }

    /// Adds a name to those of directories that are not walked.
    pub fn add_skip_dir(&mut self, directory_name: String) -> (r: Result<(), String>)
        requires
            old(self).wf(),
        ensures
            r.is_ok(),
            final(self).wf(),
            final(self).paths() == old(self).paths(),
            final(self).index() == old(self).index(),
            forall|other: Seq<char>|
                holds(final(self).skipped(), other) <==> (holds(old(self).skipped(), other)
                    || other == directory_name@),
    {
        insert_distinct(&mut self.skip_dirs, directory_name);
        Ok(())
    }

    /// The directories that are walked.
    pub fn search_paths(&self) -> (r: &Vec<String>)
        ensures
            r@ == self.paths(),
    {
        &self.search_paths
    }

    /// The names of directories that are not walked.
    pub fn skip_dirs(&self) -> (r: &Vec<String>)
        ensures
            r@ == self.skipped(),
    {
        &self.skip_dirs
    }

    /// The index.
    pub fn files(&self) -> (r: &Vec<FileEntry>)
        ensures
            r@ == self.index(),
    {
        &self.files
    }

    /// Whether a walk goes into, or takes, what has this name: not what is
    /// hidden, and not what stands on the skip list.
    pub fn should_visit(&self, file_name: &str) -> (visit: bool)
        ensures
            visit == (!is_hidden(file_name@) && !holds(self.skipped(), file_name@)),
    {
        !starts_with_dot(file_name) && !list_holds(&self.skip_dirs, file_name)
    }

    /// Ends a walk. One that went through replaces the index by what it
    /// found; one that was given up leaves the index as it was.
    pub fn finish_scan(&mut self, outcome: ScanOutcome)
        ensures
            final(self).paths() == old(self).paths(),
            final(self).skipped() == old(self).skipped(),
            final(self).index() == match outcome {
                ScanOutcome::Completed(found) => found@,
                ScanOutcome::TimedOut => old(self).index(),
            },
    {
        match outcome {
            ScanOutcome::Completed(found) => {
                self.files = found;
            },
            ScanOutcome::TimedOut => {},
        }
    }

    /// The files that are shown while there is no query: none.
    pub fn default_list(&self) -> (items: Vec<FileEntry>)
        ensures
            items@.len() == 0,
    {
        Vec::new()
    }

    /// The files that are shown for a query: none for the empty query, and
    /// otherwise the ten best matches of the index, the best first.
    pub fn filter(&self, query: &str) -> (items: Vec<FileEntry>)
        ensures
            items@.len() == matching(query@, self.index()).len(),
            forall|j: int|
                0 <= j < items@.len() ==> {
                    let at = matching(query@, self.index())[j];
                    &&& 0 <= at < self.index().len()
                    &&& (#[trigger] items@[j]).path_text() == self.index()[at].path_text()
                    &&& items@[j].name_text() == self.index()[at].name_text()
                },
            query@.len() == 0 ==> items@.len() == 0,
    {
        if query.is_empty() {
            return self.default_list();
        }
        let mut keys: Vec<SearchKeys> = Vec::new();
        let mut i: usize = 0;
        while i < self.files.len()
            invariant
                0 <= i <= self.files@.len(),
                keys@.len() == i,
                forall|j: int|
                    0 <= j < i ==> (#[trigger] keys@[j]).score(query@) == file_score(
                        query@,
                        self.files@[j],
                    ),
            decreases self.files@.len() - i,
        {
            let primary = self.files[i].primary_key();
            let secondary = self.files[i].secondary_keys();
            let made = SearchKeys { primary, secondary };
            proof {
                let given = made.secondary_texts();
                assert(given =~= texts(secondary@));
                assert(given.drop_last() =~= Seq::<Seq<char>>::empty());
                assert(given.last() == self.files@[i as int].path_text());
                assert(crate::fuzzy::best_secondary(query@, given.drop_last()).is_none());
            }
            keys.push(made);
            i = i + 1;
        }
        proof {
            assert(key_scores(query@, keys@) =~= file_scores(query@, self.files@));
            crate::fuzzy::lemma_best_matches(file_scores(query@, self.files@), MAX_MATCHES);
        }
        let mut matcher = FuzzyMatcher::new();
        let picked = matcher.match_keys(query, &keys, MAX_MATCHES);
        let ghost best = matching(query@, self.index());
        let mut items: Vec<FileEntry> = Vec::new();
        let mut j: usize = 0;
        proof {
            assert(as_ints(picked@).len() == picked@.len());
        }
        while j < picked.len()
            invariant
                0 <= j <= picked@.len(),
                keys@.len() == self.files@.len(),
                as_ints(picked@) == best,
                picked@.len() == best.len(),
                forall|t: int| 0 <= t < picked@.len() ==> #[trigger] picked@[t] < keys@.len(),
                items@.len() == j,
                forall|t: int|
                    0 <= t < j ==> {
                        &&& 0 <= best[t] < self.files@.len()
                        &&& (#[trigger] items@[t]).path_text() == self.files@[best[t]].path_text()
                        &&& items@[t].name_text() == self.files@[best[t]].name_text()
                    },
            decreases picked@.len() - j,
        {
            let at: usize = picked[j];
            proof {
                assert(as_ints(picked@)[j as int] == at as int);
            }
            items.push(self.files[at].duplicate());
            j = j + 1;
        }
        items
    }
}

} // verus!
