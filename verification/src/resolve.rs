//! Which scripts a user receives.
//!
//! Under one name a user receives one script. A script addressed to the user
//! wins over every script addressed to all users, and among several addressed
//! to the user the last one wins. Where none is addressed to the user, the
//! first script addressed to all users wins. A script addressed to somebody
//! else is never received.
use crate::script::{views, Script, ScriptView};
use crate::user::User;
use vstd::prelude::*;

verus! {

/// Script `i` is addressed to `user` and to nobody else.
pub open spec fn addressed_to(scripts: Seq<ScriptView>, user: Seq<char>, i: int) -> bool {
    0 <= i < scripts.len() && scripts[i].user_override == Some(user)
}

/// Script `i` is addressed to all users.
pub open spec fn for_everyone(scripts: Seq<ScriptView>, i: int) -> bool {
    0 <= i < scripts.len() && scripts[i].user_override is None
}

/// Some script at `from` or later is called `name` and addressed to `user`.
pub open spec fn override_from(
    scripts: Seq<ScriptView>,
    user: Seq<char>,
    name: Seq<char>,
    from: int,
) -> bool {
    exists|j: int| from <= j && #[trigger] addressed_to(scripts, user, j) && scripts[j].name == name
}

/// Some script before `end` is called `name` and addressed to all users.
pub open spec fn default_before(scripts: Seq<ScriptView>, name: Seq<char>, end: int) -> bool {
    exists|j: int| j < end && #[trigger] for_everyone(scripts, j) && scripts[j].name == name
}

/// Script `i` is the one that `user` receives under its name.
pub open spec fn selected(scripts: Seq<ScriptView>, user: Seq<char>, i: int) -> bool {
    if addressed_to(scripts, user, i) {
        !override_from(scripts, user, scripts[i].name, i + 1)
    } else if for_everyone(scripts, i) {
        !default_before(scripts, scripts[i].name, i) && !override_from(
            scripts,
            user,
            scripts[i].name,
            0,
        )
    } else {
        false
    }
}

/// The scripts that `user` receives, by their positions, in rising order.
pub open spec fn selection(scripts: Seq<ScriptView>, user: Seq<char>) -> Seq<int> {
    Seq::new(scripts.len(), |i: int| i).filter(|i: int| selected(scripts, user, i))
}

/// The positions below `n` of the scripts that `user` receives.
spec fn selection_below(scripts: Seq<ScriptView>, user: Seq<char>, n: int) -> Seq<int> {
    Seq::new(scripts.len(), |i: int| i).take(n).filter(|i: int| selected(scripts, user, i))
}

/// `selection_below` holds the received positions below `n`, each once, in
/// rising order.
proof fn lemma_selection_below(scripts: Seq<ScriptView>, user: Seq<char>, n: int)
    requires
        0 <= n <= scripts.len(),
    ensures
        forall|k: int|
            0 <= k < selection_below(scripts, user, n).len() ==> {
                let i = #[trigger] selection_below(scripts, user, n)[k];
                0 <= i < n && selected(scripts, user, i)
            },
        forall|i: int|
            0 <= i < n && selected(scripts, user, i) ==> selection_below(scripts, user, n).contains(
                i,
            ),
        forall|a: int, b: int|
            0 <= a < b < selection_below(scripts, user, n).len() ==> selection_below(
                scripts,
                user,
                n,
            )[a] < selection_below(scripts, user, n)[b],
    decreases n,
{
    let all = Seq::new(scripts.len(), |i: int| i);
    let wins = |i: int| selected(scripts, user, i);
    if n == 0 {
        assert(all.take(0) =~= Seq::<int>::empty());
        all.take(0).lemma_filter_len(wins);
    } else {
        let before = selection_below(scripts, user, n - 1);
        let now = selection_below(scripts, user, n);
        lemma_selection_below(scripts, user, n - 1);
        assert(all.take(n) =~= all.take(n - 1).push(n - 1));
        all.take(n - 1).lemma_filter_push(n - 1, wins);
        if selected(scripts, user, n - 1) {
            assert(now == before.push(n - 1));
            assert(now[now.len() - 1] == n - 1);
            assert forall|i: int| 0 <= i < n && selected(scripts, user, i) implies now.contains(
                i,
            ) by {
                if i < n - 1 {
                    let k = choose|k: int| 0 <= k < before.len() && before[k] == i;
                    assert(now[k] == i);
                }
            }
        } else {
            assert(now == before);
        }
    }
}

/// What `selection` holds: the positions of the scripts that `user` receives,
/// each once, in rising order.
pub proof fn lemma_selection(scripts: Seq<ScriptView>, user: Seq<char>)
    ensures
        forall|k: int|
            0 <= k < selection(scripts, user).len() ==> selected(
                scripts,
                user,
                #[trigger] selection(scripts, user)[k],
            ),
        forall|i: int| selected(scripts, user, i) ==> selection(scripts, user).contains(i),
        forall|a: int, b: int|
            0 <= a < b < selection(scripts, user).len() ==> selection(scripts, user)[a]
                < selection(scripts, user)[b],
{
    let all = Seq::new(scripts.len(), |i: int| i);
    assert(all.take(scripts.len() as int) =~= all);
    lemma_selection_below(scripts, user, scripts.len() as int);
}

/// The positions held in a vector of positions.
pub open spec fn positions(indices: Seq<usize>) -> Seq<int> {
    indices.map_values(|i: usize| i as int)
}

/// Whether a script at `from` or later is called `name` and addressed to
/// `user`.
pub fn has_override_from(scripts: &Vec<Script>, user: &String, name: &String, from: usize) -> (b:
    bool)
    ensures
        b == override_from(views(scripts@), user@, name@, from as int),
{
    let mut j: usize = from;
    while j < scripts.len()
        invariant
            from <= j,
            forall|k: int|
                from <= k < j && #[trigger] addressed_to(views(scripts@), user@, k) ==> views(
                    scripts@,
                )[k].name != name@,
        decreases scripts.len() - j,
    {
        let hit = match &scripts[j].user_override {
            Some(addressee) => *addressee == *user && scripts[j].name == *name,
            None => false,
        };
        if hit {
            assert(addressed_to(views(scripts@), user@, j as int));
            return true;
        }
        j += 1;
    }
    false
}

/// Whether a script before `end` is called `name` and addressed to all users.
pub fn has_default_before(scripts: &Vec<Script>, name: &String, end: usize) -> (b: bool)
    ensures
        b == default_before(views(scripts@), name@, end as int),
{
    let stop = if end < scripts.len() {
        end
    } else {
        scripts.len()
    };
    let mut j: usize = 0;
    while j < stop
        invariant
            j <= stop <= scripts.len(),
            stop <= end,
            forall|k: int|
                k < j && #[trigger] for_everyone(views(scripts@), k) ==> views(scripts@)[k].name
                    != name@,
        decreases stop - j,
    {
        if scripts[j].user_override.is_none() && scripts[j].name == *name {
            assert(for_everyone(views(scripts@), j as int));
            return true;
        }
        j += 1;
    }
    false
}

/// Whether `user` receives script `i` under its name. No user receives a
/// script that is not there.
pub fn is_selected(scripts: &Vec<Script>, user: &String, i: usize) -> (b: bool)
    ensures
        b == selected(views(scripts@), user@, i as int),
{
    if i >= scripts.len() {
        return false;
    }
    match &scripts[i].user_override {
        Some(addressee) => {
            if *addressee == *user {
                !has_override_from(scripts, user, &scripts[i].name, i + 1)
            } else {
                false
            }
        },
        None => {
            !has_default_before(scripts, &scripts[i].name, i) && !has_override_from(
                scripts,
                user,
                &scripts[i].name,
                0,
            )
        },
    }
}

/// The scripts that `user` receives, by their positions in `scripts`, in
/// rising order.
pub fn resolve(scripts: &Vec<Script>, user: &User) -> (chosen: Vec<usize>)
    ensures
        positions(chosen@) == selection(views(scripts@), user@.name),
{
    let ghost all = Seq::new(scripts@.len(), |i: int| i);
    let ghost wins = |i: int| selected(views(scripts@), user@.name, i);
    let mut chosen: Vec<usize> = Vec::new();
    let mut i: usize = 0;
    while i < scripts.len()
        invariant
            i <= scripts.len(),
            all == Seq::new(scripts@.len(), |i: int| i),
            wins == |i: int| selected(views(scripts@), user@.name, i),
            positions(chosen@) == all.take(i as int).filter(wins),
        decreases scripts.len() - i,
    {
        proof {
            assert(all.take(i + 1) =~= all.take(i as int).push(i as int));
            all.take(i as int).lemma_filter_push(i as int, wins);
        }
        if is_selected(scripts, &user.name, i) {
            assert(positions(chosen@.push(i)) =~= positions(chosen@).push(i as int));
            chosen.push(i);
        }
        i += 1;
    }
    assert(all.take(i as int) =~= all);
    chosen
}

} // verus!
