//! Search for code projects: which directories count as projects, which of
//! them match a query, of what type a project is, and how it is opened.

pub mod framework_detector;
pub mod framework_macro;
pub mod framework_rules;
pub mod type_scanner;

use crate::plugin::PluginConfig;
use crate::projects::type_scanner::ProjectLanguage;
use crate::text::{
    chars_of, contains, contains_text, distinct, file_name, file_name_of, holds, insert_distinct,
    is_hidden, list_holds, lowercase, lowercased, matches_at, occurs_at, split_words, starts_with_dot,
    text_from, texts, words_of,
};
use crate::LaunchError;
use vstd::prelude::*;
use vstd::string::StringExecFns;

verus! {

/// How long the type of a project is remembered, in hours.
pub const PROJECT_TYPE_TTL_HOURS: u64 = 24;

/// The text of an optional string.
pub open spec fn optional_text(s: Option<String>) -> Option<Seq<char>> {
    match s {
        Some(t) => Some(t@),
        None => None,
    }
}

/// The place in a command where the path of the project goes.
pub open spec fn placeholder() -> Seq<char> {
    seq!['{', 'p', 'a', 't', 'h', '}']
}

/// A command from position `from` on, with the path in each place that is
/// marked for it, the places taken from left to right.
pub open spec fn substituted_from(command: Seq<char>, path: Seq<char>, from: int) -> Seq<char>
    decreases command.len() - from,
{
    if from < 0 || from >= command.len() {
        Seq::empty()
    } else if occurs_at(command, placeholder(), from) {
        path + substituted_from(command, path, from + 6)
    } else {
        seq![command[from]] + substituted_from(command, path, from + 1)
    }
}

/// A command with the path in each place that is marked for it.
pub open spec fn substituted(command: Seq<char>, path: Seq<char>) -> Seq<char> {
    substituted_from(command, path, 0)
}

/// The name of a language as it is written in the names of icon files: "plus"
/// for each `+`, "sharp" for each `#`.
pub open spec fn spelled_from(name: Seq<char>, from: int) -> Seq<char>
    decreases name.len() - from,
{
    if from < 0 || from >= name.len() {
        Seq::empty()
    } else if name[from] == '+' {
        seq!['p', 'l', 'u', 's'] + spelled_from(name, from + 1)
    } else if name[from] == '#' {
        seq!['s', 'h', 'a', 'r', 'p'] + spelled_from(name, from + 1)
    } else {
        seq![name[from]] + spelled_from(name, from + 1)
    }
}

/// The name of a language as it is written in the names of icon files.
pub open spec fn spelled(name: Seq<char>) -> Seq<char> {
    spelled_from(name, 0)
}

/// The type of a project: the framework that was detected, or else the
/// language with the largest share of the code, spelled out, or nothing.
pub open spec fn project_type_of(
    framework: Option<Seq<char>>,
    languages: Seq<ProjectLanguage>,
) -> Option<Seq<char>> {
    match framework {
        Some(name) => Some(name),
        None => if languages.len() > 0 {
            Some(spelled(languages[0].name@))
        } else {
            None
        },
    }
}

/// Appends the characters of `more` to `out`.
fn append_chars(out: &mut Vec<char>, more: &Vec<char>)
    ensures
        final(out)@ == old(out)@ + more@,
{
    let mut i: usize = 0;
    while i < more.len()
        invariant
            0 <= i <= more@.len(),
            out@ == old(out)@ + more@.take(i as int),
        decreases more@.len() - i,
    {
        out.push(more[i]);
        proof {
            assert(more@.take(i + 1) =~= more@.take(i as int).push(more@[i as int]));
            assert(out@ =~= old(out)@ + more@.take(i + 1));
        }
        i = i + 1;
    }
    proof {
        assert(more@.take(i as int) =~= more@);
    }
}

/// A command with the path in each place that is marked `{path}`.
pub fn substitute_path(command: &str, path: &str) -> (text: String)
    ensures
        text@ == substituted(command@, path@),
{
    let template = chars_of(command);
    let inserted = chars_of(path);
    let mut mark: Vec<char> = Vec::new();
    mark.push('{');
    mark.push('p');
    mark.push('a');
    mark.push('t');
    mark.push('h');
    mark.push('}');
    proof {
        assert(mark@ =~= placeholder());
    }
    let mut out: Vec<char> = Vec::new();
    let mut i: usize = 0;
    while i < template.len()
        invariant
            0 <= i <= template@.len(),
            template@ == command@,
            inserted@ == path@,
            mark@ == placeholder(),
            out@ + substituted_from(command@, path@, i as int) == substituted(command@, path@),
        decreases template@.len() - i,
    {
        let ghost before = out@;
        let here = template.len() - i >= 6 && matches_at(&template, &mark, i);
        if here {
            append_chars(&mut out, &inserted);
            proof {
                assert((before + path@) + substituted_from(command@, path@, i + 6) =~= before + (
                path@ + substituted_from(command@, path@, i + 6)));
            }
            i = i + 6;
        } else {
            out.push(template[i]);
            proof {
                assert(!occurs_at(command@, placeholder(), i as int));
                assert(before.push(command@[i as int]) + substituted_from(command@, path@, i + 1)
                    =~= before + (seq![command@[i as int]] + substituted_from(
                    command@,
                    path@,
                    i + 1,
                )));
            }
            i = i + 1;
        }
    }
    proof {
        assert(out@ + Seq::<char>::empty() =~= out@);
    }
    text_from(&out)
}

/// The name of a language as it is written in the names of icon files: "plus"
/// for each `+`, "sharp" for each `#`.
pub fn spell_out(name: &str) -> (text: String)
    ensures
        text@ == spelled(name@),
{
    let letters = chars_of(name);
    let mut out: Vec<char> = Vec::new();
    let mut i: usize = 0;
    while i < letters.len()
        invariant
            0 <= i <= letters@.len(),
            letters@ == name@,
            out@ + spelled_from(name@, i as int) == spelled(name@),
        decreases letters@.len() - i,
    {
        let ghost before = out@;
        let c = letters[i];
        if c == '+' {
            out.push('p');
            out.push('l');
            out.push('u');
            out.push('s');
            proof {
                assert(out@ =~= before + seq!['p', 'l', 'u', 's']);
                assert(out@ + spelled_from(name@, i + 1) =~= before + (seq!['p', 'l', 'u', 's']
                    + spelled_from(name@, i + 1)));
            }
        } else if c == '#' {
            out.push('s');
            out.push('h');
            out.push('a');
            out.push('r');
            out.push('p');
            proof {
                assert(out@ =~= before + seq!['s', 'h', 'a', 'r', 'p']);
                assert(out@ + spelled_from(name@, i + 1) =~= before + (seq![
                    's',
                    'h',
                    'a',
                    'r',
                    'p',
                ] + spelled_from(name@, i + 1)));
            }
        } else {
            out.push(c);
            proof {
                assert(out@ + spelled_from(name@, i + 1) =~= before + (seq![c] + spelled_from(
                    name@,
                    i + 1,
                )));
            }
        }
        i = i + 1;
    }
    proof {
        assert(out@ + Seq::<char>::empty() =~= out@);
    }
    text_from(&out)
}

/// The key under which the type of the project at a path is remembered.
pub fn project_type_key(path: &str) -> (key: String)
    ensures
        key@ == "project_type:"@ + path@,
{
    String::from_str("project_type:").concat(path)
}

/// The type of a project: the framework that was detected, or else the
/// language with the largest share of the code, spelled out as in the names
/// of icon files, or nothing where neither is known.
pub fn detect_project_type(framework: Option<String>, languages: &Vec<ProjectLanguage>) -> (kind:
    Option<String>)
    ensures
        optional_text(kind) == project_type_of(optional_text(framework), languages@),
{
    match framework {
        Some(name) => Some(name),
        None => {
            if languages.len() > 0 {
                Some(spell_out(languages[0].name.as_str()))
            } else {
                None
            }
        },
    }
}

/// Whether a directory name stands on a skip list.
pub fn should_skip_dir(dir_name: &str, skip_dirs: &Vec<String>) -> (skip: bool)
    ensures
        skip == holds(skip_dirs@, dir_name@),
{
    list_holds(skip_dirs, dir_name)
}

/// A project of the index.
#[derive(Debug, Clone)]
pub struct ProjectEntry {
    path: String,
    name: String,
    exec_command: String,
    project_type: Option<String>,
}

impl ProjectEntry {
    /// The directory of the project.
    pub closed spec fn path_text(&self) -> Seq<char> {
        self.path@
    }

    /// The name of the directory.
    pub closed spec fn name_text(&self) -> Seq<char> {
        self.name@
    }

    /// The command that opens the project, with `{path}` where the path goes.
    pub closed spec fn command_text(&self) -> Seq<char> {
        self.exec_command@
    }

    /// The type of the project, where it is known.
    pub closed spec fn type_text(&self) -> Option<Seq<char>> {
        optional_text(self.project_type)
    }

    /// The name is the file name of the path.
    pub open spec fn wf(&self) -> bool {
        file_name_of(self.path_text()) == Some(self.name_text())
    }

    /// The entry of a directory, unless its path has no file name.
    pub fn new(path: &str, exec_command: &str, project_type: Option<String>) -> (entry: Option<
        Self,
    >)
        ensures
            match entry {
                Some(e) => {
                    &&& e.wf()
                    &&& e.path_text() == path@
                    &&& e.command_text() == exec_command@
                    &&& e.type_text() == optional_text(project_type)
                },
                None => file_name_of(path@).is_none(),
            },
    {
        match file_name(path) {
            Some(name) => Some(
                ProjectEntry {
                    path: path.to_owned(),
                    name,
                    exec_command: exec_command.to_owned(),
                    project_type,
                },
            ),
            None => None,
        }
    }

    /// An entry with the same texts.
    pub fn duplicate(&self) -> (r: Self)
        ensures
            r.path_text() == self.path_text(),
            r.name_text() == self.name_text(),
            r.command_text() == self.command_text(),
            r.type_text() == self.type_text(),
    {
        ProjectEntry {
            path: self.path.clone(),
            name: self.name.clone(),
            exec_command: self.exec_command.clone(),
            project_type: match &self.project_type {
                Some(t) => Some(t.clone()),
                None => None,
            },
        }
    }

    /// A project is told by its path.
    pub fn id(&self) -> (r: String)
        ensures
            r@ == self.path_text(),
    {
        self.path.clone()
    }

    /// A project is shown by the name of its directory.
    pub fn title(&self) -> (r: String)
        ensures
            r@ == self.name_text(),
    {
        self.name.clone()
    }

    /// The second line shows the path.
    pub fn description(&self) -> (r: Option<String>)
        ensures
            r.is_some(),
            r.unwrap()@ == self.path_text(),
    {
        Some(self.path.clone())
    }

    /// The type of the project, where it is known.
    pub fn project_type(&self) -> (r: Option<String>)
        ensures
            optional_text(r) == self.type_text(),
    {
        match &self.project_type {
            Some(t) => Some(t.clone()),
            None => None,
        }
    }

    /// The name of the icon file of the project's type: the type in lower
    /// case, with the ending of vector images. Nothing where the type is not
    /// known.
    pub fn icon_file_name(&self) -> (r: Option<String>)
        ensures
            optional_text(r) == match self.type_text() {
                Some(t) => Some(lowercased(t) + ".svg"@),
                None => None,
            },
    {
        match &self.project_type {
            Some(t) => Some(lowercase(t.as_str()).concat(".svg")),
            None => None,
        }
    }

    /// The icon of the project: the icon file of its type where one was found
    /// among the installed icons, else where one was found in the source
    /// tree, and else the icon of the editor.
    pub fn choose_icon(installed: Option<String>, in_tree: Option<String>) -> (icon: String)
        ensures
            icon@ == match (installed, in_tree) {
                (Some(p), _) => p@,
                (None, Some(p)) => p@,
                (None, None) => "vscode"@,
            },
    {
        match (installed, in_tree) {
            (Some(p), _) => p,
            (None, Some(p)) => p,
            (None, None) => "vscode".to_owned(),
        }
    }

    /// The program and the arguments that open the project: the words of the
    /// command, after the path has taken each place that is marked for it. A
    /// command without a word is refused.
    pub fn launch_command(&self) -> (r: Result<(String, Vec<String>), LaunchError>)
        ensures
            ({
                let words = words_of(substituted(self.command_text(), self.path_text()));
                match r {
                    Ok((program, args)) => {
                        &&& words.len() > 0
                        &&& program@ == words[0]
                        &&& texts(args@) == words.skip(1)
                    },
                    Err(e) => words.len() == 0 && e.text() == "No program found in exec_command"@,
                }
            }),
    {
        let command = substitute_path(self.exec_command.as_str(), self.path.as_str());
        let words = split_words(command.as_str());
        if words.len() == 0 {
            proof {
                assert(texts(words@).len() == 0);
            }
            return Err(LaunchError::CouldNotLaunch("No program found in exec_command".to_owned()));
        }
        let program = words[0].clone();
        let mut args: Vec<String> = Vec::new();
        let mut i: usize = 1;
        while i < words.len()
            invariant
                1 <= i <= words@.len(),
                args@.len() == i - 1,
                forall|j: int| 0 <= j < i - 1 ==> (#[trigger] args@[j])@ == words@[j + 1]@,
            decreases words@.len() - i,
        {
            args.push(words[i].clone());
            i = i + 1;
        }
        proof {
            assert(texts(words@)[0] == words@[0]@);
            assert(texts(args@) =~= texts(words@).skip(1));
        }
        Ok((program, args))
    }
}

/// Whether the name of a project matches a query: in lower case, the query
/// stands somewhere in the name.
pub open spec fn name_matches(name: Seq<char>, query: Seq<char>) -> bool {
    contains_text(lowercased(name), lowercased(query))
}

/// The projects that are shown for a query, as positions in the index: none
/// for the empty query, and otherwise those whose names match, in the order
/// of the index.
pub open spec fn matching(query: Seq<char>, projects: Seq<ProjectEntry>) -> Seq<int>
    decreases projects.len(),
{
    if query.len() == 0 || projects.len() == 0 {
        Seq::empty()
    } else if name_matches(projects.last().name_text(), query) {
        matching(query, projects.drop_last()).push(projects.len() - 1)
    } else {
        matching(query, projects.drop_last())
    }
}

/// The search for projects.
pub struct ProjectsPlugin {
    search_paths: Vec<String>,
    skip_dirs: Vec<String>,
    open_command: String,
    files: Vec<ProjectEntry>,
}

/// The texts of a list, each once.
fn without_repeats(list: Vec<String>) -> (r: Vec<String>)
    ensures
        distinct(r@),
        forall|other: Seq<char>| #[trigger] holds(r@, other) <==> holds(list@, other),
{
    let mut r: Vec<String> = Vec::new();
    let mut i: usize = 0;
    while i < list.len()
        invariant
            0 <= i <= list@.len(),
            distinct(r@),
            forall|other: Seq<char>| #[trigger]
                holds(r@, other) <==> holds(list@.take(i as int), other),
        decreases list@.len() - i,
    {
        let ghost before = r@;
        insert_distinct(&mut r, list[i].clone());
        proof {
            let seen = list@.take(i + 1);
            assert forall|other: Seq<char>| #[trigger] holds(r@, other) <==> holds(seen, other) by {
                assert(holds(before, other) <==> holds(list@.take(i as int), other));
                if holds(seen, other) {
                    let j = choose|j: int| 0 <= j < seen.len() && (#[trigger] seen[j])@ == other;
                    if j < i {
                        assert(list@.take(i as int)[j]@ == other);
                    }
                }
                if holds(list@.take(i as int), other) {
                    let j = choose|j: int|
                        0 <= j < i && (#[trigger] list@.take(i as int)[j])@ == other;
                    assert(seen[j]@ == other);
                }
                if other == list@[i as int]@ {
                    assert(seen[i as int]@ == other);
                }
            }
        }
        i = i + 1;
    }
    proof {
        assert(list@.take(i as int) =~= list@);
    }
    r
}

impl ProjectsPlugin {
    /// The directories whose subdirectories count as projects.
    pub closed spec fn paths(&self) -> Seq<String> {
        self.search_paths@
    }

    /// The names of directories that are no projects.
    pub closed spec fn skipped(&self) -> Seq<String> {
        self.skip_dirs@
    }

    /// The command that opens a project.
    pub closed spec fn command(&self) -> Seq<char> {
        self.open_command@
    }

    /// The index: the projects of the last scan.
    pub closed spec fn index(&self) -> Seq<ProjectEntry> {
        self.files@
    }

    /// No path and no name stands twice.
    pub open spec fn wf(&self) -> bool {
        distinct(self.paths()) && distinct(self.skipped())
    }

    /// A search with what the configuration holds: the directories to scan,
    /// the names to skip, and the command that opens a project. What the
    /// configuration lacks is empty, and the command is `code -n {path}`.
    pub fn new(
        search_paths: Option<Vec<String>>,
        skip_dirs: Option<Vec<String>>,
        open_command: Option<String>,
    ) -> (plugin: Self)
        ensures
            plugin.wf(),
            plugin.index().len() == 0,
            plugin.command() == match open_command {
                Some(c) => c@,
                None => "code -n {path}"@,
            },
            forall|path: Seq<char>| #[trigger]
                holds(plugin.paths(), path) <==> (search_paths.is_some() && holds(
                    search_paths.unwrap()@,
                    path,
                )),
            forall|name: Seq<char>| #[trigger]
                holds(plugin.skipped(), name) <==> (skip_dirs.is_some() && holds(
                    skip_dirs.unwrap()@,
                    name,
                )),
    {
        let search_paths = match search_paths {
            Some(paths) => without_repeats(paths),
            None => Vec::new(),
        };
        let skip_dirs = match skip_dirs {
            Some(names) => without_repeats(names),
            None => Vec::new(),
        };
        let open_command = match open_command {
            Some(c) => c,
            None => "code -n {path}".to_owned(),
        };
        ProjectsPlugin { search_paths, skip_dirs, open_command, files: Vec::new() }
    }

    /// What the provider declares of itself.
    pub fn config(&self) -> (config: PluginConfig)
        ensures
            config.name@ == "Projects"@,
            config.priority == 800,
            config.description.is_some() && config.description.unwrap()@
                == "Search and open code projects"@,
            config.prefix.is_some() && config.prefix.unwrap()@ == "proj"@,
            !config.by_prefix_only,
    {
        PluginConfig::new("Projects").with_priority(800).with_description(
            "Search and open code projects",
        ).with_prefix("proj")
    }

    /// Adds a directory to those that are scanned. A path that does not
    /// exist, or that is no directory, is refused and changes nothing.
    pub fn add_search_path(&mut self, path: &str, exists: bool, is_dir: bool) -> (r: Result<
        (),
        String,
    >)
        requires
            old(self).wf(),
        ensures
            final(self).wf(),
            final(self).skipped() == old(self).skipped(),
            final(self).index() == old(self).index(),
            final(self).command() == old(self).command(),
            match r {
                Ok(_) => exists && is_dir && forall|other: Seq<char>| #[trigger]
                    holds(final(self).paths(), other) <==> (holds(old(self).paths(), other)
                        || other == path@),
                Err(message) => final(self).paths() == old(self).paths() && if !exists {
                    message@ == "Path does not exist: "@ + path@
                } else {
                    !is_dir && message@ == "Path is not a directory: "@ + path@
                },
            },
    {
        if !exists {
            return Err(String::from_str("Path does not exist: ").concat(path));
        }
        if !is_dir {
            return Err(String::from_str("Path is not a directory: ").concat(path));
        }
        insert_distinct(&mut self.search_paths, path.to_owned());
        Ok(())
    }

    /// Adds a name to those of directories that are no projects.
    pub fn add_skip_dir(&mut self, directory_name: String) -> (r: Result<(), String>)
        requires
            old(self).wf(),
        ensures
            r.is_ok(),
            final(self).wf(),
            final(self).paths() == old(self).paths(),
            final(self).index() == old(self).index(),
            final(self).command() == old(self).command(),
            forall|other: Seq<char>| #[trigger]
                holds(final(self).skipped(), other) <==> (holds(old(self).skipped(), other)
                    || other == directory_name@),
    {
        insert_distinct(&mut self.skip_dirs, directory_name);
        Ok(())
    }

    /// The directories that are scanned.
    pub fn search_paths(&self) -> (r: &Vec<String>)
        ensures
            r@ == self.paths(),
    {
        &self.search_paths
    }

    /// The command that opens a project.
    pub fn open_command(&self) -> (r: &String)
        ensures
            r@ == self.command(),
    {
        &self.open_command
    }

    /// The index.
    pub fn projects(&self) -> (r: &Vec<ProjectEntry>)
        ensures
            r@ == self.index(),
    {
        &self.files
    }

    /// Whether an entry of a scanned directory is a project: a directory that
    /// is not hidden and whose name does not stand on the skip list.
    pub fn is_project_dir(&self, name: &str, is_dir: bool) -> (project: bool)
        ensures
            project == (is_dir && !is_hidden(name@) && !holds(self.skipped(), name@)),
    {
        is_dir && !starts_with_dot(name) && !should_skip_dir(name, &self.skip_dirs)
    }

    /// Ends a scan: what it found is the index from now on.
    pub fn finish_scan(&mut self, found: Vec<ProjectEntry>)
        ensures
            final(self).paths() == old(self).paths(),
            final(self).skipped() == old(self).skipped(),
            final(self).command() == old(self).command(),
            final(self).index() == found@,
    {
        self.files = found;
    }

    /// The projects that are shown while there is no query: none.
    pub fn default_list(&self) -> (items: Vec<ProjectEntry>)
        ensures
            items@.len() == 0,
    {
        Vec::new()
    }

    /// The projects that are shown for a query: none for the empty query,
    /// and otherwise those whose names hold the query, case ignored, in the
    /// order of the index.
    pub fn filter(&self, query: &str) -> (items: Vec<ProjectEntry>)
        ensures
            items@.len() == matching(query@, self.index()).len(),
            forall|j: int|
                0 <= j < items@.len() ==> {
                    let at = matching(query@, self.index())[j];
                    &&& 0 <= at < self.index().len()
                    &&& (#[trigger] items@[j]).path_text() == self.index()[at].path_text()
                    &&& items@[j].name_text() == self.index()[at].name_text()
                    &&& items@[j].command_text() == self.index()[at].command_text()
                    &&& items@[j].type_text() == self.index()[at].type_text()
                },
            query@.len() == 0 ==> items@.len() == 0,
    {
        if query.is_empty() {
            return self.default_list();
        }
        let wanted = chars_of(lowercase(query).as_str());
        let mut items: Vec<ProjectEntry> = Vec::new();
        let mut i: usize = 0;
        while i < self.files.len()
            invariant
                0 <= i <= self.files@.len(),
                query@.len() > 0,
                wanted@ == lowercased(query@),
                items@.len() == matching(query@, self.files@.take(i as int)).len(),
                forall|j: int|
                    0 <= j < items@.len() ==> {
                        let at = matching(query@, self.files@.take(i as int))[j];
                        &&& 0 <= at < i
                        &&& (#[trigger] items@[j]).path_text() == self.files@[at].path_text()
                        &&& items@[j].name_text() == self.files@[at].name_text()
                        &&& items@[j].command_text() == self.files@[at].command_text()
                        &&& items@[j].type_text() == self.files@[at].type_text()
                    },
            decreases self.files@.len() - i,
        {
            let ghost before = matching(query@, self.files@.take(i as int));
            proof {
                let seen = self.files@.take(i + 1);
                assert(seen.drop_last() == self.files@.take(i as int));
                assert(seen.last() == self.files@[i as int]);
            }
            let name = chars_of(lowercase(self.files[i].name.as_str()).as_str());
            if contains(&name, &wanted) {
                items.push(self.files[i].duplicate());
                proof {
                    let now = matching(query@, self.files@.take(i + 1));
                    assert(now == before.push(i as int));
                    assert forall|j: int| 0 <= j < items@.len() implies {
                        let at = now[j];
                        &&& 0 <= at < i + 1
                        &&& (#[trigger] items@[j]).path_text() == self.files@[at].path_text()
                        &&& items@[j].name_text() == self.files@[at].name_text()
                        &&& items@[j].command_text() == self.files@[at].command_text()
                        &&& items@[j].type_text() == self.files@[at].type_text()
                    } by {
                        if j < before.len() {
                            assert(now[j] == before[j]);
                        }
                    }
                }
            }
            i = i + 1;
        }
        proof {
            assert(self.files@.take(i as int) == self.files@);
        }
        items
    }
}

} // verus!
