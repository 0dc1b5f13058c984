//! Which framework a project uses: the first one whose signs are found.

use crate::projects::framework_macro::{verdict, FrameworkHeuristics, FrameworkRule, RuleFacts};
use vstd::prelude::*;

verus! {

/// The frameworks that are told apart.
#[derive(Debug, Clone, Copy, PartialEq, Eq, Structural)]
pub enum Framework {
    Laravel,
    Rails,
    Vue,
    NextJS,
    Svelte,
    Django,
    Flask,
    Fiber,
    Ansible,
}

impl Framework {
    /// The name of the framework.
    pub open spec fn label(&self) -> Seq<char> {
        match self {
            Framework::Laravel => "Laravel"@,
            Framework::Rails => "Rails"@,
            Framework::Vue => "Vue"@,
            Framework::NextJS => "NextJS"@,
            Framework::Svelte => "Svelte"@,
            Framework::Django => "Django"@,
            Framework::Flask => "Flask"@,
            Framework::Fiber => "Fiber"@,
            Framework::Ansible => "Ansible"@,
        }
    }

    /// The name of the framework.
    pub fn name(&self) -> (r: String)
        ensures
            r@ == self.label(),
    {
        match self {
            Framework::Laravel => "Laravel".to_owned(),
            Framework::Rails => "Rails".to_owned(),
            Framework::Vue => "Vue".to_owned(),
            Framework::NextJS => "NextJS".to_owned(),
            Framework::Svelte => "Svelte".to_owned(),
            Framework::Django => "Django".to_owned(),
            Framework::Flask => "Flask".to_owned(),
            Framework::Fiber => "Fiber".to_owned(),
            Framework::Ansible => "Ansible".to_owned(),
        }
    }
}

/// The position of the first yes among the answers.
pub open spec fn first_yes(answers: Seq<bool>) -> Option<int>
    decreases answers.len(),
{
    if answers.len() == 0 {
        None
    } else {
        match first_yes(answers.drop_last()) {
            Some(i) => Some(i),
            None => if answers.last() {
                Some(answers.len() - 1)
            } else {
                None
            },
        }
    }
}

/// What `first_yes` finds is a yes with no yes before it.
pub proof fn lemma_first_yes(answers: Seq<bool>)
    ensures
        match first_yes(answers) {
            Some(i) => 0 <= i < answers.len() && answers[i] && forall|j: int|
                0 <= j < i ==> !answers[j],
            None => forall|j: int| 0 <= j < answers.len() ==> !answers[j],
        },
    decreases answers.len(),
{
    if answers.len() > 0 {
        lemma_first_yes(answers.drop_last());
        let shorter = answers.drop_last();
        assert forall|j: int| 0 <= j < shorter.len() implies shorter[j] == answers[j] by {}
    }
}

/// The answers of a list of candidates.
pub open spec fn answers_of(candidates: Seq<(String, bool)>) -> Seq<bool> {
    Seq::new(candidates.len(), |i: int| candidates[i].1)
}

/// The name of the first candidate whose answer is yes.
pub fn first_match(candidates: &Vec<(String, bool)>) -> (found: Option<String>)
    ensures
        match first_yes(answers_of(candidates@)) {
            Some(i) => found.is_some() && found.unwrap()@ == candidates@[i].0@,
            None => found.is_none(),
        },
{
    let ghost answers = answers_of(candidates@);
    let mut i: usize = 0;
    proof {
        assert(answers.take(0) =~= Seq::<bool>::empty());
    }
    while i < candidates.len()
        invariant
            0 <= i <= candidates@.len(),
            answers == answers_of(candidates@),
            first_yes(answers.take(i as int)).is_none(),
        decreases candidates@.len() - i,
    {
        proof {
            let seen = answers.take(i + 1);
            assert(seen.drop_last() == answers.take(i as int));
            assert(seen.last() == candidates@[i as int].1);
        }
        if candidates[i].1 {
            proof {
                lemma_first_yes(answers.take(i + 1));
                lemma_first_yes(answers);
                let whole = first_yes(answers);
                assert(answers[i as int]);
                assert(whole.is_some());
                assert forall|j: int| 0 <= j < i implies !answers[j] by {
                    assert(answers.take(i + 1)[j] == answers[j]);
                }
                assert(whole.unwrap() == i);
            }
            return Some(candidates[i].0.clone());
        }
        i = i + 1;
    }
    proof {
        assert(answers.take(i as int) == answers);
    }
    None
}

/// Whether `gather`, asked of a rule, came back with answers that give this
/// verdict.
pub open spec fn judged<G: Fn(&FrameworkRule) -> RuleFacts>(
    gather: G,
    rule: FrameworkRule,
    outcome: bool,
) -> bool {
    exists|facts: RuleFacts| gather.ensures((&rule,), facts) && verdict(facts) == outcome
}

/// Whether the rule at a position is the first that matches: its verdict was
/// yes, and that of each rule before it was no.
pub open spec fn first_judged<G: Fn(&FrameworkRule) -> RuleFacts>(
    gather: G,
    rules: Seq<FrameworkRule>,
    at: int,
) -> bool {
    &&& 0 <= at < rules.len()
    &&& judged(gather, rules[at], true)
    &&& forall|j: int| 0 <= j < at ==> judged(gather, #[trigger] rules[j], false)
}

/// The framework of a project: the name of the first rule that matches.
/// The answers to the questions of a rule are gathered by `gather`, rule by
/// rule, and for no rule behind the first that matches.
pub fn detect_with<G: Fn(&FrameworkRule) -> RuleFacts>(rules: &Vec<FrameworkRule>, gather: G) -> (found:
    Option<String>)
    requires
        forall|rule: &FrameworkRule| gather.requires((rule,)),
    ensures
        match found {
            Some(name) => exists|at: int| #[trigger]
                first_judged(gather, rules@, at) && rules@[at].name@ == name@,
            None => forall|j: int|
                0 <= j < rules@.len() ==> judged(gather, #[trigger] rules@[j], false),
        },
{
    let mut i: usize = 0;
    while i < rules.len()
        invariant
            0 <= i <= rules@.len(),
            forall|rule: &FrameworkRule| gather.requires((rule,)),
            forall|j: int| 0 <= j < i ==> judged(gather, #[trigger] rules@[j], false),
        decreases rules@.len() - i,
    {
        let facts = gather(&rules[i]);
        let matched = rules[i].matches_with(&facts);
        proof {
            assert(gather.ensures((&rules@[i as int],), facts) && verdict(facts) == matched);
        }
        if matched {
            proof {
                assert(first_judged(gather, rules@, i as int));
            }
            return Some(rules[i].name.clone());
        }
        i = i + 1;
    }
    None
}

/// Whether the heuristic at a position is the first that says yes: asked
/// for the project, it said yes, and each one before it said no.
pub open spec fn first_saying_yes(
    heuristics: Seq<Box<dyn FrameworkHeuristics>>,
    project_path: Seq<char>,
    at: int,
) -> bool {
    &&& 0 <= at < heuristics.len()
    &&& heuristics[at].says(project_path, true)
    &&& forall|j: int| 0 <= j < at ==> (#[trigger] heuristics[j]).says(project_path, false)
}

/// Whether every heuristic, asked for the project, said no.
pub open spec fn all_saying_no(
    heuristics: Seq<Box<dyn FrameworkHeuristics>>,
    project_path: Seq<char>,
) -> bool {
    forall|j: int| 0 <= j < heuristics.len() ==> (#[trigger] heuristics[j]).says(project_path, false)
}

/// Tells the framework of a project by a list of heuristics.
pub struct FrameworkDetector {
    heuristics: Vec<Box<dyn FrameworkHeuristics>>,
}

impl FrameworkDetector {
    /// The heuristics, in the order in which they are asked.
    pub closed spec fn heuristics(&self) -> Seq<Box<dyn FrameworkHeuristics>> {
        self.heuristics@
    }

    /// How many heuristics the detector asks.
    pub open spec fn count(&self) -> nat {
        self.heuristics().len()
    }

    /// A detector that asks these heuristics, in this order.
    pub fn new(heuristics: Vec<Box<dyn FrameworkHeuristics>>) -> (detector: Self)
        ensures
            detector.heuristics() == heuristics@,
    {
        FrameworkDetector { heuristics }
    }

    /// The framework of the project at a path: the name of the first
    /// heuristic that says yes. The heuristics are asked in order, and none
    /// after the first yes; nothing is found where each says no.
    pub fn detect(&self, project_path: &str) -> (found: Option<String>)
        ensures
            match found {
                Some(name) => exists|at: int| #[trigger]
                    first_saying_yes(self.heuristics(), project_path@, at)
                        && self.heuristics()[at].is_named(name@),
                None => all_saying_no(self.heuristics(), project_path@),
            },
            self.count() == 0 ==> found.is_none(),
    {
        let mut i: usize = 0;
        while i < self.heuristics.len()
            invariant
                0 <= i <= self.heuristics@.len(),
                forall|j: int|
                    0 <= j < i ==> (#[trigger] self.heuristics@[j]).says(project_path@, false),
            decreases self.heuristics@.len() - i,
        {
            if self.heuristics[i].matches(project_path) {
                let name = self.heuristics[i].name();
                proof {
                    assert(first_saying_yes(self.heuristics(), project_path@, i as int));
                }
                return Some(name);
            }
            i = i + 1;
        }
        None
    }
}

} // verus!
