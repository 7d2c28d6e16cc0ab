//! Process environments as ordered lists of (name, value) pairs with
//! distinct names.

use vstd::prelude::*;
use crate::text::same_text;

verus! {

/// An environment as Verus sees it.
pub type EnvView = Seq<(Seq<char>, Seq<char>)>;

/// No name occurs twice.
pub open spec fn env_wf(env: EnvView) -> bool {
    forall|i: int, j: int| 0 <= i < j < env.len() ==> env[i].0 != env[j].0
}

/// The value of `name` in `env`.
pub open spec fn env_get(env: EnvView, name: Seq<char>) -> Option<Seq<char>>
    decreases env.len(),
{
    if env.len() == 0 {
        None
    } else if env.last().0 == name {
        Some(env.last().1)
    } else {
        env_get(env.drop_last(), name)
    }
}

/// `env` with `name` set to `value`: replaced in place when present,
/// appended otherwise.
pub open spec fn env_set(env: EnvView, name: Seq<char>, value: Seq<char>) -> EnvView {
    if exists|i: int| 0 <= i < env.len() && env[i].0 == name {
        let i = choose|i: int| 0 <= i < env.len() && env[i].0 == name;
        env.update(i, (name, value))
    } else {
        env.push((name, value))
    }
}

/// Where `name` stands in `env`, if it does.
pub fn position(env: &Vec<(String, String)>, name: &str) -> (r: Option<usize>)
    ensures
        r is None <==> forall|i: int| 0 <= i < env@.len() ==> env@[i].0@ != name@,
        r matches Some(i) ==> i < env@.len() && env@[i as int].0@ == name@,
{
    let mut i: usize = 0;
    while i < env.len()
        invariant
            i <= env@.len(),
            forall|k: int| 0 <= k < i ==> env@[k].0@ != name@,
        decreases env@.len() - i,
    {
        if same_text(env[i].0.as_str(), name) {
            return Some(i);
        }
        i = i + 1;
    }
    None
}

proof fn lemma_get_absent(env: EnvView, name: Seq<char>)
    requires
        forall|i: int| 0 <= i < env.len() ==> env[i].0 != name,
    ensures
        env_get(env, name) is None,
    decreases env.len(),
{
    if env.len() > 0 {
        lemma_get_absent(env.drop_last(), name);
    }
}

proof fn lemma_get_at(env: EnvView, name: Seq<char>, i: int)
    requires
        env_wf(env),
        0 <= i < env.len(),
        env[i].0 == name,
    ensures
        env_get(env, name) == Some(env[i].1),
    decreases env.len(),
{
    if i != env.len() - 1 {
        assert(env.drop_last()[i] == env[i]);
        lemma_get_at(env.drop_last(), name, i);
    }
}

/// Looking a name up in a well-formed environment finds the entry that has it.
pub proof fn lemma_env_get(env: EnvView, name: Seq<char>)
    requires
        env_wf(env),
    ensures
        (forall|i: int| 0 <= i < env.len() ==> env[i].0 != name) ==> env_get(env, name) is None,
        forall|i: int| 0 <= i < env.len() && env[i].0 == name ==> env_get(env, name) == Some(env[i].1),
{
    if forall|i: int| 0 <= i < env.len() ==> env[i].0 != name {
        lemma_get_absent(env, name);
    }
    assert forall|i: int| 0 <= i < env.len() && env[i].0 == name implies env_get(env, name) == Some(env[i].1) by {
        lemma_get_at(env, name, i);
    }
}

/// Setting a name keeps names distinct, gives the name its new value, and
/// leaves every other name as it was.
pub proof fn lemma_env_set(env: EnvView, name: Seq<char>, value: Seq<char>)
    requires
        env_wf(env),
    ensures
        env_wf(env_set(env, name, value)),
        env_get(env_set(env, name, value), name) == Some(value),
        forall|other: Seq<char>| other != name ==> env_get(env_set(env, name, value), other) == env_get(env, other),
{
    let r = env_set(env, name, value);
    assert(env_wf(r));
    lemma_env_get(r, name);
    if exists|i: int| 0 <= i < env.len() && env[i].0 == name {
        let i = choose|i: int| 0 <= i < env.len() && env[i].0 == name;
        assert(r[i].0 == name);
    } else {
        assert(r[env.len() as int].0 == name);
    }
    assert forall|other: Seq<char>| other != name implies env_get(r, other) == env_get(env, other) by {
        lemma_env_get(r, other);
        lemma_env_get(env, other);
        if exists|k: int| 0 <= k < env.len() && env[k].0 == other {
            let k = choose|k: int| 0 <= k < env.len() && env[k].0 == other;
            assert(r[k] == env[k]);
        } else {
            assert forall|k: int| 0 <= k < r.len() implies r[k].0 != other by {
                if k < env.len() {
                    if exists|i: int| 0 <= i < env.len() && env[i].0 == name {
                        let i = choose|i: int| 0 <= i < env.len() && env[i].0 == name;
                        if k != i {
                            assert(r[k] == env[k]);
                        }
                    } else {
                        assert(r[k] == env[k]);
                    }
                }
            }
        }
    }
}

/// Sets `name` to `value` in `env`.
pub fn set_var(env: &mut Vec<(String, String)>, name: String, value: String)
    requires
        env_wf(old(env).deep_view()),
    ensures
        final(env).deep_view() == env_set(old(env).deep_view(), name@, value@),
        env_wf(final(env).deep_view()),
{
    proof {
        lemma_env_set(env.deep_view(), name@, value@);
    }
    let ghost before = env.deep_view();
    match position(env, name.as_str()) {
        Some(i) => {
            assert(before[i as int].0 == name@);
            let ghost j = choose|j: int| 0 <= j < before.len() && before[j].0 == name@;
            assert(j == i as int) by {
                if j != i as int {
                    if j < i as int {
                        assert(before[j].0 != before[i as int].0);
                    } else {
                        assert(before[i as int].0 != before[j].0);
                    }
                }
            }
            env.set(i, (name, value));
            assert(env.deep_view() == before.update(i as int, (name@, value@)));
        },
        None => {
            assert(!exists|j: int| 0 <= j < before.len() && before[j].0 == name@) by {
                assert forall|j: int| 0 <= j < before.len() implies before[j].0 != name@ by {
                    assert(before[j] == (env@[j].0@, env@[j].1@));
                }
            }
            env.push((name, value));
            assert(env.deep_view() == before.push((name@, value@)));
        },
    }
}

/// Whether `env` sets `name`.
pub fn has_var(env: &Vec<(String, String)>, name: &str) -> (r: bool)
    ensures
        r == exists|i: int| 0 <= i < env@.len() && env@[i].0@ == name@,
{
    position(env, name).is_some()
}

/// `env` without `name`.
pub open spec fn env_without(env: EnvView, name: Seq<char>) -> EnvView {
    if exists|i: int| 0 <= i < env.len() && env[i].0 == name {
        env.remove(choose|i: int| 0 <= i < env.len() && env[i].0 == name)
    } else {
        env
    }
}

/// Takes `name` out of `env`, handing back its value.
pub fn take_var(env: &mut Vec<(String, String)>, name: &str) -> (r: Option<String>)
    requires
        env_wf(old(env).deep_view()),
    ensures
        env_wf(final(env).deep_view()),
        final(env).deep_view() == env_without(old(env).deep_view(), name@),
        r matches Some(v) ==> env_get(old(env).deep_view(), name@) == Some(v@),
        r is None ==> env_get(old(env).deep_view(), name@) is None && final(env).deep_view() == old(
            env,
        ).deep_view(),
{
    let ghost before = env.deep_view();
    proof {
        lemma_env_get(before, name@);
    }
    match position(env, name) {
        Some(i) => {
            assert(before[i as int].0 == name@);
            let ghost j = choose|j: int| 0 <= j < before.len() && before[j].0 == name@;
            assert(j == i as int) by {
                if j != i as int {
                    if j < i as int {
                        assert(before[j].0 != before[i as int].0);
                    } else {
                        assert(before[i as int].0 != before[j].0);
                    }
                }
            }
            let (_, value) = env.remove(i);
            assert(env.deep_view() =~= before.remove(i as int));
            assert(env_wf(env.deep_view())) by {
                assert forall|a: int, b: int| 0 <= a < b < env.deep_view().len() implies env.deep_view()[a].0
                    != env.deep_view()[b].0 by {
                    let a2 = if a < i { a } else { a + 1 };
                    let b2 = if b < i { b } else { b + 1 };
                    assert(env.deep_view()[a] == before[a2]);
                    assert(env.deep_view()[b] == before[b2]);
                }
            }
            Some(value)
        },
        None => {
            assert forall|j: int| 0 <= j < before.len() implies before[j].0 != name@ by {
                assert(before[j] == (env@[j].0@, env@[j].1@));
            }
            None
        },
    }
}

} // verus!
