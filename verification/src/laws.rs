//! What holds of every selection and of every plan.
use crate::names::installed_name;
use crate::plan::{copies_for, copy_of};
use crate::resolve::{
    addressed_to, default_before, for_everyone, lemma_selection, override_from, selected,
    selection,
};
use crate::script::ScriptView;
use vstd::prelude::*;

verus! {

/// Among the scripts before `n` that are called `name` and addressed to
/// `user`, if there is any, one is the last.
proof fn lemma_last_addressed(scripts: Seq<ScriptView>, user: Seq<char>, name: Seq<char>, n: int)
    requires
        0 <= n <= scripts.len(),
        exists|j: int| j < n && #[trigger] addressed_to(scripts, user, j) && scripts[j].name == name,
    ensures
        exists|k: int|
            {
                &&& k < n
                &&& #[trigger] addressed_to(scripts, user, k)
                &&& scripts[k].name == name
                &&& forall|j: int|
                    k < j < n && #[trigger] addressed_to(scripts, user, j) ==> scripts[j].name
                        != name
            },
    decreases n,
{
    if addressed_to(scripts, user, n - 1) && scripts[n - 1].name == name {
    } else {
        let j = choose|j: int|
            j < n && #[trigger] addressed_to(scripts, user, j) && scripts[j].name == name;
        assert(j < n - 1);
        lemma_last_addressed(scripts, user, name, n - 1);
    }
}

/// Among the scripts from `from` on that are called `name` and addressed to
/// all users, if there is any, one is the first.
proof fn lemma_first_default(scripts: Seq<ScriptView>, name: Seq<char>, from: int)
    requires
        0 <= from <= scripts.len(),
        exists|j: int| from <= j && #[trigger] for_everyone(scripts, j) && scripts[j].name == name,
    ensures
        exists|k: int|
            {
                &&& from <= k
                &&& #[trigger] for_everyone(scripts, k)
                &&& scripts[k].name == name
                &&& forall|j: int|
                    from <= j < k && #[trigger] for_everyone(scripts, j) ==> scripts[j].name
                        != name
            },
    decreases scripts.len() - from,
{
    if for_everyone(scripts, from) && scripts[from].name == name {
    } else {
        let j = choose|j: int|
            from <= j && #[trigger] for_everyone(scripts, j) && scripts[j].name == name;
        assert(from < j);
        lemma_first_default(scripts, name, from + 1);
    }
}

/// A user receives at most one script under one name.
pub proof fn lemma_one_script_per_name(scripts: Seq<ScriptView>, user: Seq<char>, a: int, b: int)
    requires
        selected(scripts, user, a),
        selected(scripts, user, b),
        scripts[a].name == scripts[b].name,
    ensures
        a == b,
{
}

/// A user receives a script under every name under which one is addressed to
/// the user or to all users.
pub proof fn lemma_receives_what_is_offered(scripts: Seq<ScriptView>, user: Seq<char>, i: int)
    requires
        addressed_to(scripts, user, i) || for_everyone(scripts, i),
    ensures
        exists|k: int| #[trigger] selected(scripts, user, k) && scripts[k].name == scripts[i].name,
{
    let name = scripts[i].name;
    if override_from(scripts, user, name, 0) {
        lemma_last_addressed(scripts, user, name, scripts.len() as int);
        let k = choose|k: int|
            {
                &&& k < scripts.len()
                &&& #[trigger] addressed_to(scripts, user, k)
                &&& scripts[k].name == name
                &&& forall|j: int|
                    k < j < scripts.len() && #[trigger] addressed_to(scripts, user, j)
                        ==> scripts[j].name != name
            };
        assert(selected(scripts, user, k));
    } else {
        assert(for_everyone(scripts, i));
        lemma_first_default(scripts, name, 0);
        let k = choose|k: int|
            {
                &&& 0 <= k
                &&& #[trigger] for_everyone(scripts, k)
                &&& scripts[k].name == name
                &&& forall|j: int|
                    0 <= j < k && #[trigger] for_everyone(scripts, j) ==> scripts[j].name != name
            };
        assert(selected(scripts, user, k));
    }
}

/// Where every script is addressed to all users, each user receives exactly
/// one script under every name that occurs: the first script of that name.
pub proof fn lemma_each_name_once(scripts: Seq<ScriptView>, user: Seq<char>, i: int)
    requires
        forall|j: int| 0 <= j < scripts.len() ==> (#[trigger] scripts[j]).user_override is None,
        0 <= i < scripts.len(),
    ensures
        exists|k: int|
            {
                &&& #[trigger] selected(scripts, user, k)
                &&& scripts[k].name == scripts[i].name
                &&& k <= i
                &&& forall|j: int|
                    selected(scripts, user, j) && scripts[j].name == scripts[i].name ==> j == k
            },
{
    assert(for_everyone(scripts, i));
    lemma_receives_what_is_offered(scripts, user, i);
    let k = choose|k: int|
        #[trigger] selected(scripts, user, k) && scripts[k].name == scripts[i].name;
    assert(for_everyone(scripts, k));
    assert(k <= i);
}

/// Where a script is addressed to a user, the user receives under its name a
/// script addressed to that user and none addressed to all users. The script
/// received is the last of those addressed to the user under that name: the
/// given one, where no later one is.
pub proof fn lemma_override_wins(scripts: Seq<ScriptView>, user: Seq<char>, o: int)
    requires
        addressed_to(scripts, user, o),
    ensures
        !override_from(scripts, user, scripts[o].name, o + 1) ==> selected(scripts, user, o),
        exists|k: int|
            {
                &&& #[trigger] selected(scripts, user, k)
                &&& scripts[k].name == scripts[o].name
                &&& addressed_to(scripts, user, k)
                &&& o <= k
            },
        forall|d: int|
            #[trigger] for_everyone(scripts, d) && scripts[d].name == scripts[o].name ==> !selected(
                scripts,
                user,
                d,
            ),
{
    lemma_receives_what_is_offered(scripts, user, o);
    let k = choose|k: int|
        #[trigger] selected(scripts, user, k) && scripts[k].name == scripts[o].name;
    assert(addressed_to(scripts, user, k));
    assert(o <= k);
}

/// A script addressed to one user is received by no other user.
pub proof fn lemma_override_is_private(
    scripts: Seq<ScriptView>,
    user: Seq<char>,
    other: Seq<char>,
    o: int,
)
    requires
        addressed_to(scripts, user, o),
        other != user,
    ensures
        !selected(scripts, other, o),
{
}

/// A user to whom no script called as script `d` is addressed receives, where
/// `d` is addressed to all users, the first script of that name that is
/// addressed to all users.
pub proof fn lemma_default_for_the_others(scripts: Seq<ScriptView>, other: Seq<char>, d: int)
    requires
        for_everyone(scripts, d),
        !override_from(scripts, other, scripts[d].name, 0),
    ensures
        exists|k: int|
            {
                &&& #[trigger] selected(scripts, other, k)
                &&& scripts[k].name == scripts[d].name
                &&& for_everyone(scripts, k)
                &&& k <= d
                &&& !default_before(scripts, scripts[d].name, k)
            },
{
    lemma_receives_what_is_offered(scripts, other, d);
    let k = choose|k: int|
        #[trigger] selected(scripts, other, k) && scripts[k].name == scripts[d].name;
    assert(for_everyone(scripts, k));
    assert(k <= d);
}

/// Two names are installed under one file name only where they are one name.
pub proof fn lemma_installed_name_injective(a: Seq<char>, b: Seq<char>)
    requires
        installed_name(a) == installed_name(b),
    ensures
        a == b,
{
    let tail = ".js"@;
    assert(a.len() == b.len()) by {
        assert(installed_name(a).len() == a.len() + tail.len());
        assert(installed_name(b).len() == b.len() + tail.len());
    }
    assert forall|i: int| 0 <= i < a.len() implies a[i] == b[i] by {
        assert(installed_name(a)[i] == a[i]);
        assert(installed_name(b)[i] == b[i]);
    }
    assert(a =~= b);
}

/// The copies planned for a user are those of the scripts that the user
/// receives, one for each, in the order of the scripts.
pub proof fn lemma_copies(scripts: Seq<ScriptView>, user: Seq<char>)
    ensures
        copies_for(scripts, user).len() == selection(scripts, user).len(),
        forall|c: int|
            0 <= c < copies_for(scripts, user).len() ==> {
                &&& selected(scripts, user, selection(scripts, user)[c])
                &&& (#[trigger] copies_for(scripts, user)[c]) == copy_of(
                    scripts[selection(scripts, user)[c]],
                )
            },
        forall|k: int|
            selected(scripts, user, k) ==> exists|c: int|
                0 <= c < copies_for(scripts, user).len() && selection(scripts, user)[c] == k
                    && #[trigger] copies_for(scripts, user)[c] == copy_of(scripts[k]),
{
    lemma_selection(scripts, user);
    let chosen = selection(scripts, user);
    assert forall|k: int| selected(scripts, user, k) implies exists|c: int|
        0 <= c < copies_for(scripts, user).len() && selection(scripts, user)[c] == k
            && #[trigger] copies_for(scripts, user)[c] == copy_of(scripts[k]) by {
        assert(chosen.contains(k));
        let c = choose|c: int| 0 <= c < chosen.len() && chosen[c] == k;
        assert(copies_for(scripts, user)[c] == copy_of(scripts[k]));
    }
}

/// No two copies planned for one user go to the same file.
pub proof fn lemma_copies_go_to_distinct_files(
    scripts: Seq<ScriptView>,
    user: Seq<char>,
    a: int,
    b: int,
)
    requires
        0 <= a < copies_for(scripts, user).len(),
        0 <= b < copies_for(scripts, user).len(),
        copies_for(scripts, user)[a].file_name == copies_for(scripts, user)[b].file_name,
    ensures
        a == b,
{
    lemma_selection(scripts, user);
    let chosen = selection(scripts, user);
    lemma_installed_name_injective(scripts[chosen[a]].name, scripts[chosen[b]].name);
    lemma_one_script_per_name(scripts, user, chosen[a], chosen[b]);
    if a < b {
        assert(chosen[a] < chosen[b]);
    } else if b < a {
        assert(chosen[b] < chosen[a]);
    }
}

} // verus!
