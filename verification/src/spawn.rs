//! What a launched program is given of the session of the desktop.

use vstd::prelude::*;

verus! {

/// The names of the variables that tell a program where the session of the
/// desktop is: the display, the runtime directory, the kind of session and
/// the desktop; in the order in which they are handed on.
pub open spec fn session_names() -> Seq<Seq<char>> {
    seq![
        "WAYLAND_DISPLAY"@,
        "DISPLAY"@,
        "XDG_RUNTIME_DIR"@,
        "XDG_SESSION_TYPE"@,
        "XDG_CURRENT_DESKTOP"@,
    ]
}

/// The variables of the environment that a launched program is given
/// explicitly: the launcher may have been started long before the session in
/// which the program is to show.
pub fn session_variables() -> (names: Vec<String>)
    ensures
        crate::text::texts(names@) == session_names(),
{
    let mut names: Vec<String> = Vec::new();
    names.push("WAYLAND_DISPLAY".to_owned());
    names.push("DISPLAY".to_owned());
    names.push("XDG_RUNTIME_DIR".to_owned());
    names.push("XDG_SESSION_TYPE".to_owned());
    names.push("XDG_CURRENT_DESKTOP".to_owned());
    proof {
        assert(crate::text::texts(names@) =~= session_names());
    }
    names
}

/// The positions of the variables that are set, in order.
pub open spec fn set_ones(variables: Seq<(String, Option<String>)>) -> Seq<int>
    decreases variables.len(),
{
    if variables.len() == 0 {
        Seq::empty()
    } else if variables.last().1.is_some() {
        set_ones(variables.drop_last()).push(variables.len() - 1)
    } else {
        set_ones(variables.drop_last())
    }
}

/// Every position that `set_ones` lists is one of a variable that is set.
pub proof fn lemma_set_ones(variables: Seq<(String, Option<String>)>)
    ensures
        set_ones(variables).len() <= variables.len(),
        forall|j: int|
            0 <= j < set_ones(variables).len() ==> 0 <= #[trigger] set_ones(variables)[j]
                < variables.len() && variables[set_ones(variables)[j]].1.is_some(),
    decreases variables.len(),
{
    if variables.len() > 0 {
        let shorter = variables.drop_last();
        lemma_set_ones(shorter);
        let s = set_ones(variables);
        let ss = set_ones(shorter);
        assert forall|j: int| 0 <= j < s.len() implies 0 <= #[trigger] s[j] < variables.len()
            && variables[s[j]].1.is_some() by {
            if j < ss.len() {
                assert(s[j] == ss[j]);
                assert(shorter[ss[j]] == variables[ss[j]]);
            }
        }
    }
}

/// The variables that a launched program is given, with their values: of the
/// variables and what the environment holds for each, those that are set,
/// in order. One that is not set is not given.
pub fn preserved_environment(variables: &Vec<(String, Option<String>)>) -> (given: Vec<
    (String, String),
>)
    ensures
        given@.len() == set_ones(variables@).len(),
        forall|j: int|
            0 <= j < given@.len() ==> {
                &&& 0 <= set_ones(variables@)[j] < variables@.len()
                &&& variables@[set_ones(variables@)[j]].1.is_some()
                &&& (#[trigger] given@[j]).0@ == variables@[set_ones(variables@)[j]].0@
                &&& given@[j].1@ == variables@[set_ones(variables@)[j]].1.unwrap()@
            },
{
    let mut given: Vec<(String, String)> = Vec::new();
    let mut i: usize = 0;
    while i < variables.len()
        invariant
            0 <= i <= variables@.len(),
            given@.len() == set_ones(variables@.take(i as int)).len(),
            forall|j: int|
                0 <= j < given@.len() ==> {
                    &&& (#[trigger] given@[j]).0@ == variables@[set_ones(
                        variables@.take(i as int),
                    )[j]].0@
                    &&& given@[j].1@ == variables@[set_ones(
                        variables@.take(i as int),
                    )[j]].1.unwrap()@
                },
        decreases variables@.len() - i,
    {
        let ghost before = set_ones(variables@.take(i as int));
        let ghost held = given@;
        proof {
            let seen = variables@.take(i + 1);
            assert(seen.drop_last() == variables@.take(i as int));
            assert(seen.last() == variables@[i as int]);
        }
        match &variables[i].1 {
            Some(value) => {
                given.push((variables[i].0.clone(), value.clone()));
                proof {
                    let now = set_ones(variables@.take(i + 1));
                    assert(now == before.push(i as int));
                    assert forall|j: int| 0 <= j < given@.len() implies (#[trigger] given@[j]).0@
                        == variables@[now[j]].0@ && given@[j].1@ == variables@[now[j]].1.unwrap()@ by {
                        if j < before.len() {
                            assert(now[j] == before[j]);
                            assert(given@[j] == held[j]);
                        }
                    }
                }
            },
            None => {
                proof {
                    assert(set_ones(variables@.take(i + 1)) == before);
                }
            },
        }
        i = i + 1;
    }
    proof {
        assert(variables@.take(i as int) == variables@);
        lemma_set_ones(variables@);
    }
    given
}

} // verus!
