//! What a framework is told by: files that must be there, and directories,
//! configuration keys and other signs of which one is enough.

use crate::text::{chars_of, same_text, text_from};
use vstd::prelude::*;

verus! {

/// A way of telling whether a project uses a framework.
///
/// A type says what its heuristics answer by the predicates of this trait. A
/// type that says nothing leaves every answer open.
pub trait FrameworkHeuristics: Send + Sync {
    /// Whether a text is the name of the framework.
    open spec fn is_named(&self, name: Seq<char>) -> bool {
        true
    }

    /// Whether this may be the answer for the project at a path. What is on
    /// disk may change, so both answers may be open.
    open spec fn says(&self, project_path: Seq<char>, answer: bool) -> bool {
        true
    }

    /// The name of the framework.
    fn name(&self) -> (name: String)
        ensures
            self.is_named(name@),
    ;

    /// Whether the project at a path uses it.
    fn matches(&self, project_path: &str) -> (answer: bool)
        ensures
            self.says(project_path@, answer),
    ;
}

/// What is read of a configuration file in JSON: objects with their members,
/// and everything else.
pub enum JsonNode {
    Object(Vec<(String, JsonNode)>),
    Other,
}

/// The member of an object with a key: the first one, where several have it.
pub open spec fn member(entries: Seq<(String, JsonNode)>, key: Seq<char>) -> Option<JsonNode>
    decreases entries.len(),
{
    if entries.len() == 0 {
        None
    } else if entries[0].0@ == key {
        Some(entries[0].1)
    } else {
        member(entries.skip(1), key)
    }
}

/// Whether a chain of keys, from position `from` on, leads from a node to a
/// member, each key naming a member of the object before it.
pub open spec fn leads(node: JsonNode, keys: Seq<Seq<char>>, from: int) -> bool
    decreases keys.len() - from,
{
    if from < 0 || from >= keys.len() {
        true
    } else {
        match node {
            JsonNode::Object(entries) => match member(entries@, keys[from]) {
                Some(child) => leads(child, keys, from + 1),
                None => false,
            },
            JsonNode::Other => false,
        }
    }
}

/// The parts of a path between its dots. A path without a dot is one part,
/// and so is the empty path.
pub open spec fn dot_parts(path: Seq<char>) -> Seq<Seq<char>>
    decreases path.len(),
{
    if path.len() == 0 {
        seq![Seq::<char>::empty()]
    } else if path.last() == '.' {
        dot_parts(path.drop_last()).push(Seq::<char>::empty())
    } else {
        let before = dot_parts(path.drop_last());
        before.drop_last().push(before.last().push(path.last()))
    }
}

/// Whether a path of keys, written with dots between them, leads from a node
/// to a member.
pub open spec fn has_json_path(json: JsonNode, path: Seq<char>) -> bool {
    leads(json, dot_parts(path), 0)
}

/// The texts of a list of character lists.
pub open spec fn part_texts(parts: Seq<Vec<char>>) -> Seq<Seq<char>> {
    Seq::new(parts.len(), |i: int| parts[i]@)
}

/// The parts of a path between its dots.
pub fn split_on_dots(path: &str) -> (parts: Vec<Vec<char>>)
    ensures
        part_texts(parts@) == dot_parts(path@),
        parts@.len() >= 1,
{
    let letters = chars_of(path);
    let mut parts: Vec<Vec<char>> = Vec::new();
    let mut current: Vec<char> = Vec::new();
    let mut i: usize = 0;
    proof {
        assert(part_texts(parts@).push(current@) =~= dot_parts(path@.take(0)));
    }
    while i < letters.len()
        invariant
            0 <= i <= letters@.len(),
            letters@ == path@,
            part_texts(parts@).push(current@) == dot_parts(path@.take(i as int)),
        decreases letters@.len() - i,
    {
        let ghost done = part_texts(parts@);
        let ghost open = current@;
        proof {
            let seen = path@.take(i + 1);
            assert(seen.drop_last() == path@.take(i as int));
            assert(seen.last() == path@[i as int]);
            assert(done.push(open).drop_last() =~= done);
            assert(done.push(open).last() == open);
        }
        if letters[i] == '.' {
            parts.push(current);
            current = Vec::new();
            proof {
                assert(part_texts(parts@) =~= done.push(open));
            }
        } else {
            current.push(letters[i]);
        }
        i = i + 1;
    }
    proof {
        assert(path@.take(i as int) == path@);
    }
    let ghost done = part_texts(parts@);
    parts.push(current);
    proof {
        assert(part_texts(parts@) =~= done.push(current@));
    }
    parts
}

/// The member of an object with a key.
fn find_member<'a>(entries: &'a Vec<(String, JsonNode)>, key: &str) -> (found: Option<&'a JsonNode>)
    ensures
        match found {
            Some(child) => member(entries@, key@) == Some(*child),
            None => member(entries@, key@).is_none(),
        },
{
    let mut i: usize = 0;
    proof {
        assert(entries@.skip(0) =~= entries@);
    }
    while i < entries.len()
        invariant
            0 <= i <= entries@.len(),
            member(entries@, key@) == member(entries@.skip(i as int), key@),
        decreases entries@.len() - i,
    {
        proof {
            let rest = entries@.skip(i as int);
            assert(rest[0] == entries@[i as int]);
            assert(rest.skip(1) =~= entries@.skip(i + 1));
        }
        if same_text(entries[i].0.as_str(), key) {
            return Some(&entries[i].1);
        }
        i = i + 1;
    }
    None
}

/// Whether a path of keys, written with dots between them, leads from a node
/// to a member: `a.b` asks for a member `b` of a member `a`.
pub fn check_json_path(json: &JsonNode, path: &str) -> (found: bool)
    ensures
        found == has_json_path(*json, path@),
{
    let parts = split_on_dots(path);
    let mut current: &JsonNode = json;
    let mut i: usize = 0;
    while i < parts.len()
        invariant
            0 <= i <= parts@.len(),
            part_texts(parts@) == dot_parts(path@),
            has_json_path(*json, path@) == leads(*current, dot_parts(path@), i as int),
        decreases parts@.len() - i,
    {
        let key = text_from(&parts[i]);
        proof {
            assert(part_texts(parts@)[i as int] == parts@[i as int]@);
        }
        match current {
            JsonNode::Object(entries) => {
                match find_member(entries, key.as_str()) {
                    Some(child) => {
                        current = child;
                    },
                    None => {
                        return false;
                    },
                }
            },
            JsonNode::Other => {
                return false;
            },
        }
        i = i + 1;
    }
    true
}

/// What is asked of a project besides files, directories and configuration
/// keys.
pub enum Probe {
    /// Whether a file stands in the project.
    FileExists(String),
    /// Whether a file of the project holds a text.
    FileContains { file: String, needle: String },
}

/// What tells a framework: the files that must all be there, and the
/// directories, the keys of configuration files and the other signs of which
/// one is enough.
pub struct FrameworkRule {
    pub name: String,
    pub files: Vec<String>,
    pub directories: Vec<String>,
    /// Pairs of a configuration file and a path of keys in it.
    pub json_checks: Vec<(String, String)>,
    pub custom: Vec<Probe>,
}

/// What was found of a project for one rule: an answer for each file, each
/// directory, each configuration key and each other sign of the rule, in the
/// order of the rule.
pub struct RuleFacts {
    pub files: Vec<bool>,
    pub directories: Vec<bool>,
    pub json_checks: Vec<bool>,
    pub custom: Vec<bool>,
}

/// Whether every answer is yes.
pub open spec fn all_hold(answers: Seq<bool>) -> bool {
    forall|i: int| 0 <= i < answers.len() ==> answers[i]
}

/// Whether some answer is yes.
pub open spec fn some_holds(answers: Seq<bool>) -> bool {
    exists|i: int| 0 <= i < answers.len() && answers[i]
}

/// Whether a rule asks for a sign besides its files: a directory, a key of a
/// configuration file or another sign.
pub open spec fn asks_for_signs(facts: RuleFacts) -> bool {
    facts.directories@.len() > 0 || facts.json_checks@.len() > 0 || facts.custom@.len() > 0
}

/// Whether a project with these answers uses the framework: every file of the
/// rule is there, and one of the rule's signs was found. A rule that names
/// files and no signs is met by its files alone; a rule that names nothing
/// is never met.
pub open spec fn verdict(facts: RuleFacts) -> bool {
    all_hold(facts.files@) && if asks_for_signs(facts) {
        some_holds(facts.directories@) || some_holds(facts.json_checks@) || some_holds(
            facts.custom@,
        )
    } else {
        facts.files@.len() > 0
    }
}

/// Whether every answer is yes.
pub fn all_yes(answers: &Vec<bool>) -> (r: bool)
    ensures
        r == all_hold(answers@),
{
    let mut i: usize = 0;
    while i < answers.len()
        invariant
            0 <= i <= answers@.len(),
            forall|j: int| 0 <= j < i ==> answers@[j],
        decreases answers@.len() - i,
    {
        if !answers[i] {
            return false;
        }
        i = i + 1;
    }
    true
}

/// Whether some answer is yes.
pub fn any_yes(answers: &Vec<bool>) -> (r: bool)
    ensures
        r == some_holds(answers@),
{
    let mut i: usize = 0;
    while i < answers.len()
        invariant
            0 <= i <= answers@.len(),
            forall|j: int| 0 <= j < i ==> !answers@[j],
        decreases answers@.len() - i,
    {
        if answers[i] {
            return true;
        }
        i = i + 1;
    }
    false
}

impl FrameworkRule {
    /// Whether a project with these answers to the rule's questions uses the
    /// framework.
    pub fn matches_with(&self, facts: &RuleFacts) -> (r: bool)
        ensures
            r == verdict(*facts),
    {
        if !all_yes(&facts.files) {
            return false;
        }
        if facts.directories.len() > 0 || facts.json_checks.len() > 0 || facts.custom.len() > 0 {
            any_yes(&facts.directories) || any_yes(&facts.json_checks) || any_yes(&facts.custom)
        } else {
            facts.files.len() > 0
        }
    }
}

} // verus!
