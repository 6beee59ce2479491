//! What a plan does to a user's scripts directory, where every step of it
//! succeeds.
//!
//! A directory is taken as a map from the names of its files to what they
//! hold, and `content` says what the file at a path holds when it is copied.
use crate::laws::lemma_copies_go_to_distinct_files;
use crate::plan::{copies_for, plan_for, CopyStepView, UserPlanView};
use crate::script::ScriptView;
use crate::user::UserView;
use std::path::PathBuf;
use vstd::prelude::*;

verus! {

/// The directory after the copies were made, one after the other.
pub open spec fn after_copies<C>(
    dir: Map<Seq<char>, C>,
    copies: Seq<CopyStepView>,
    content: spec_fn(PathBuf) -> C,
) -> Map<Seq<char>, C>
    decreases copies.len(),
{
    if copies.len() == 0 {
        dir
    } else {
        after_copies(dir, copies.drop_last(), content).insert(
            copies.last().file_name,
            content(copies.last().from),
        )
    }
}

/// The directory after the plan was carried out: emptied first where the plan
/// says so, then filled by the copies.
pub open spec fn after_plan<C>(
    dir: Map<Seq<char>, C>,
    plan: UserPlanView,
    content: spec_fn(PathBuf) -> C,
) -> Map<Seq<char>, C> {
    after_copies(
        if plan.clean {
            Map::empty()
        } else {
            dir
        },
        plan.copies,
        content,
    )
}

/// The file names that the copies write to.
pub open spec fn written(copies: Seq<CopyStepView>) -> Set<Seq<char>> {
    Set::new(|f: Seq<char>| exists|c: int| 0 <= c < copies.len() && copies[c].file_name == f)
}

/// Copies add the files that they write to and leave every other file as it
/// was.
pub proof fn lemma_after_copies<C>(
    dir: Map<Seq<char>, C>,
    copies: Seq<CopyStepView>,
    content: spec_fn(PathBuf) -> C,
)
    ensures
        after_copies(dir, copies, content).dom() == dir.dom().union(written(copies)),
        forall|f: Seq<char>|
            dir.dom().contains(f) && !written(copies).contains(f) ==> after_copies(
                dir,
                copies,
                content,
            )[f] == dir[f],
    decreases copies.len(),
{
    if copies.len() == 0 {
        assert(written(copies) =~= Set::empty());
        assert(dir.dom().union(written(copies)) =~= dir.dom());
    } else {
        let before = copies.drop_last();
        let last = copies.last();
        lemma_after_copies(dir, before, content);
        assert forall|f: Seq<char>| written(copies).contains(f) <==> (written(before).contains(f)
            || f == last.file_name) by {
            if written(before).contains(f) {
                let c = choose|c: int| 0 <= c < before.len() && before[c].file_name == f;
                assert(copies[c].file_name == f);
            }
            if f == last.file_name {
                assert(copies[copies.len() - 1].file_name == f);
            }
            if written(copies).contains(f) {
                let c = choose|c: int| 0 <= c < copies.len() && copies[c].file_name == f;
                if c < before.len() {
                    assert(before[c].file_name == f);
                }
            }
        }
        assert(after_copies(dir, copies, content).dom() =~= dir.dom().union(written(copies)));
    }
}

/// Where no two copies write to the same file, each file written holds, after
/// the copies, what its source held.
pub proof fn lemma_copies_are_faithful<C>(
    dir: Map<Seq<char>, C>,
    copies: Seq<CopyStepView>,
    content: spec_fn(PathBuf) -> C,
    c: int,
)
    requires
        forall|a: int, b: int|
            0 <= a < copies.len() && 0 <= b < copies.len() && copies[a].file_name
                == copies[b].file_name ==> a == b,
        0 <= c < copies.len(),
    ensures
        after_copies(dir, copies, content).dom().contains(copies[c].file_name),
        after_copies(dir, copies, content)[copies[c].file_name] == content(copies[c].from),
    decreases copies.len(),
{
    let before = copies.drop_last();
    if c < copies.len() - 1 {
        assert forall|a: int, b: int|
            0 <= a < before.len() && 0 <= b < before.len() && before[a].file_name
                == before[b].file_name implies a == b by {
            assert(before[a] == copies[a] && before[b] == copies[b]);
        }
        lemma_copies_are_faithful(dir, before, content, c);
        assert(before[c] == copies[c]);
        assert(copies[c].file_name != copies[copies.len() - 1].file_name);
    }
}

/// Copies change nothing in a directory in which every file that they write
/// to already holds what its source holds.
pub proof fn lemma_copies_settle<C>(
    dir: Map<Seq<char>, C>,
    copies: Seq<CopyStepView>,
    content: spec_fn(PathBuf) -> C,
)
    requires
        forall|c: int|
            0 <= c < copies.len() ==> dir.dom().contains(#[trigger] copies[c].file_name)
                && dir[copies[c].file_name] == content(copies[c].from),
    ensures
        after_copies(dir, copies, content) == dir,
    decreases copies.len(),
{
    if copies.len() > 0 {
        let before = copies.drop_last();
        assert forall|c: int| 0 <= c < before.len() implies dir.dom().contains(
            #[trigger] before[c].file_name,
        ) && dir[before[c].file_name] == content(before[c].from) by {
            assert(before[c] == copies[c]);
        }
        lemma_copies_settle(dir, before, content);
        let last = copies[copies.len() - 1];
        assert(dir.dom().contains(last.file_name));
        assert(after_copies(dir, copies, content) =~= dir);
    }
}

/// After a pass that cleans, a user's directory holds the files that the plan
/// copies and no others: whatever was there before is gone.
pub proof fn lemma_clean_leaves_only_the_copies<C>(
    dir: Map<Seq<char>, C>,
    plan: UserPlanView,
    content: spec_fn(PathBuf) -> C,
)
    requires
        plan.clean,
    ensures
        after_plan(dir, plan, content).dom() == written(plan.copies),
        after_plan(dir, plan, content) == after_plan(Map::empty(), plan, content),
{
    lemma_after_copies(Map::<Seq<char>, C>::empty(), plan.copies, content);
    assert(Map::<Seq<char>, C>::empty().dom().union(written(plan.copies)) =~= written(
        plan.copies,
    ));
}

/// After a pass that does not clean, every file that was there before is
/// still there, and those that the plan does not copy hold what they held.
pub proof fn lemma_without_clean_files_survive<C>(
    dir: Map<Seq<char>, C>,
    plan: UserPlanView,
    content: spec_fn(PathBuf) -> C,
    f: Seq<char>,
)
    requires
        !plan.clean,
        dir.dom().contains(f),
    ensures
        after_plan(dir, plan, content).dom().contains(f),
        !written(plan.copies).contains(f) ==> after_plan(dir, plan, content)[f] == dir[f],
{
    lemma_after_copies(dir, plan.copies, content);
}

/// After a pass, every script that a user receives lies in the user's
/// directory under its name and `.js`, and holds what its source held.
pub proof fn lemma_installed_scripts_are_copies<C>(
    dir: Map<Seq<char>, C>,
    scripts: Seq<ScriptView>,
    user: UserView,
    clean: bool,
    content: spec_fn(PathBuf) -> C,
    c: int,
)
    requires
        0 <= c < copies_for(scripts, user.name).len(),
    ensures
        ({
            let step = copies_for(scripts, user.name)[c];
            let after = after_plan(dir, plan_for(scripts, user, clean), content);
            after.dom().contains(step.file_name) && after[step.file_name] == content(step.from)
        }),
{
    let copies = copies_for(scripts, user.name);
    assert forall|a: int, b: int|
        0 <= a < copies.len() && 0 <= b < copies.len() && copies[a].file_name
            == copies[b].file_name implies a == b by {
        lemma_copies_go_to_distinct_files(scripts, user.name, a, b);
    }
    let start = if clean {
        Map::<Seq<char>, C>::empty()
    } else {
        dir
    };
    lemma_copies_are_faithful(start, copies, content, c);
}

/// A second pass over the same scripts, with sources that hold what they
/// held, leaves a user's directory as the first pass left it.
pub proof fn lemma_second_pass_changes_nothing<C>(
    dir: Map<Seq<char>, C>,
    scripts: Seq<ScriptView>,
    user: UserView,
    clean: bool,
    content: spec_fn(PathBuf) -> C,
)
    ensures
        ({
            let plan = plan_for(scripts, user, clean);
            after_plan(after_plan(dir, plan, content), plan, content) == after_plan(
                dir,
                plan,
                content,
            )
        }),
{
    let plan = plan_for(scripts, user, clean);
    let once = after_plan(dir, plan, content);
    if !clean {
        assert forall|c: int| 0 <= c < plan.copies.len() implies once.dom().contains(
            #[trigger] plan.copies[c].file_name,
        ) && once[plan.copies[c].file_name] == content(plan.copies[c].from) by {
            lemma_installed_scripts_are_copies(dir, scripts, user, clean, content, c);
        }
        lemma_copies_settle(once, plan.copies, content);
    }
}

} // verus!
