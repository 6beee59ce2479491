//! What is to be done on disk for each user: whether to empty the user's
//! scripts directory first, and which files to copy into it.
use crate::names::{installed_name, installed_name_of};
use crate::resolve::{lemma_selection, positions, resolve, selected, selection};
use crate::script::{views, Script, ScriptView};
use crate::user::{user_views, User, UserView};
use std::path::PathBuf;
use vstd::prelude::*;

verus! {

/// One file to copy, to install the script called `name`: from the path `from`
/// to the file called `file_name` in the user's scripts directory.
#[derive(Clone, Debug)]
pub struct CopyStep {
    pub name: String,
    pub from: PathBuf,
    pub file_name: String,
}

/// The mathematical value of a `CopyStep`.
pub ghost struct CopyStepView {
    pub name: Seq<char>,
    pub from: PathBuf,
    pub file_name: Seq<char>,
}

impl View for CopyStep {
    type V = CopyStepView;

    open spec fn view(&self) -> CopyStepView {
        CopyStepView { name: self.name@, from: self.from, file_name: self.file_name@ }
    }
}

impl DeepView for CopyStep {
    type V = CopyStepView;

    open spec fn deep_view(&self) -> CopyStepView {
        self@
    }
}

/// What is to be done for one user, in this order: where `clean` is set, every
/// entry of the user's scripts directory is deleted; then each of `copies` is
/// made, in their order.
#[derive(Clone, Debug)]
pub struct UserPlan {
    pub user: User,
    pub clean: bool,
    pub copies: Vec<CopyStep>,
}

/// The mathematical value of a `UserPlan`.
pub ghost struct UserPlanView {
    pub user: UserView,
    pub clean: bool,
    pub copies: Seq<CopyStepView>,
}

impl View for UserPlan {
    type V = UserPlanView;

    open spec fn view(&self) -> UserPlanView {
        UserPlanView { user: self.user@, clean: self.clean, copies: self.copies.deep_view() }
    }
}

impl DeepView for UserPlan {
    type V = UserPlanView;

    open spec fn deep_view(&self) -> UserPlanView {
        self@
    }
}

/// The copy that installs a script: from its path, to its name and `.js`.
pub open spec fn copy_of(script: ScriptView) -> CopyStepView {
    CopyStepView {
        name: script.name,
        from: script.path,
        file_name: installed_name(script.name),
    }
}

/// The copies that install what `user` receives of `scripts`.
pub open spec fn copies_for(scripts: Seq<ScriptView>, user: Seq<char>) -> Seq<CopyStepView> {
    selection(scripts, user).map_values(|i: int| copy_of(scripts[i]))
}

/// What is to be done for `user`.
pub open spec fn plan_for(scripts: Seq<ScriptView>, user: UserView, clean: bool) -> UserPlanView {
    UserPlanView { user, clean, copies: copies_for(scripts, user.name) }
}

/// What is to be done for each of `users`, in their order.
pub open spec fn plans_for(scripts: Seq<ScriptView>, users: Seq<UserView>, clean: bool) -> Seq<
    UserPlanView,
> {
    users.map_values(|u: UserView| plan_for(scripts, u, clean))
}

impl CopyStep {
    /// The copy that installs `script`.
    pub fn of(script: &Script) -> (step: CopyStep)
        ensures
            step@ == copy_of(script@),
    {
        CopyStep {
            name: script.name.clone(),
            from: script.path.clone(),
            file_name: installed_name_of(script.name.as_str()),
        }
    }
}

impl UserPlan {
    /// What is to be done for `user`, given all the scripts that were found.
    pub fn new(scripts: &Vec<Script>, user: &User, clean: bool) -> (plan: UserPlan)
        ensures
            plan@ == plan_for(views(scripts@), user@, clean),
    {
        let chosen = resolve(scripts, user);
        let ghost wanted = copies_for(views(scripts@), user@.name);
        proof {
            lemma_selection(views(scripts@), user@.name);
        }
        let mut copies: Vec<CopyStep> = Vec::new();
        let mut k: usize = 0;
        while k < chosen.len()
            invariant
                k <= chosen.len(),
                positions(chosen@) == selection(views(scripts@), user@.name),
                wanted == copies_for(views(scripts@), user@.name),
                forall|j: int|
                    0 <= j < chosen.len() ==> selected(
                        views(scripts@),
                        user@.name,
                        #[trigger] positions(chosen@)[j],
                    ),
                copies.len() == k,
                forall|j: int| 0 <= j < k ==> (#[trigger] copies[j])@ == wanted[j],
            decreases chosen.len() - k,
        {
            let i = chosen[k];
            assert(positions(chosen@)[k as int] == i);
            copies.push(CopyStep::of(&scripts[i]));
            k += 1;
        }
        assert(copies.deep_view() =~= wanted);
        UserPlan { user: user.duplicate(), clean, copies }
    }

    /// What is to be done for each of `users`, in their order.
    pub fn for_all(scripts: &Vec<Script>, users: &Vec<User>, clean: bool) -> (plans: Vec<UserPlan>)
        ensures
            plans.deep_view() == plans_for(views(scripts@), user_views(users@), clean),
    {
        let mut plans: Vec<UserPlan> = Vec::new();
        let mut k: usize = 0;
        while k < users.len()
            invariant
                k <= users.len(),
                plans.len() == k,
                forall|j: int|
                    0 <= j < k ==> (#[trigger] plans[j])@ == plan_for(
                        views(scripts@),
                        users[j]@,
                        clean,
                    ),
            decreases users.len() - k,
        {
            plans.push(UserPlan::new(scripts, &users[k], clean));
            k += 1;
        }
        assert(plans.deep_view() =~= plans_for(views(scripts@), user_views(users@), clean));
        plans
    }
}

} // verus!
