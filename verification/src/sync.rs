//! The synchronisation pass: from what was found on disk to what is to be done
//! there.
use crate::plan::{plans_for, UserPlan};
use crate::script::{matches_of, scripts_among, scripts_of, views, Expansion, Script};
use crate::user::{user_views, users_among, Listing, User};
use crate::Cli;
use std::path::PathBuf;
use vstd::prelude::*;

verus! {

/// The settings of a synchronisation: the patterns that find the scripts, the
/// root directory that holds the users' markers and directories, and whether
/// each user's scripts directory is emptied before the scripts are copied.
#[derive(Clone, Debug)]
pub struct Sync {
    pub scripts: Vec<String>,
    pub hackmud_path: PathBuf,
    pub clean: bool,
}

/// Why a synchronisation does nothing.
#[derive(Clone, Copy, Debug, PartialEq, Eq, Structural)]
pub enum SyncError {
    /// The pattern at this position, counted from zero, is not a pattern.
    InvalidPattern { index: usize },
    /// The root directory could not be read.
    UnreadableRoot,
}

/// What was found on disk: for each pattern, in the patterns' order, what its
/// expansion gave, and what listing the root directory gave.
#[derive(Clone, Debug)]
pub struct Discovery {
    pub expansions: Vec<Expansion>,
    pub root: Listing,
}

/// No pattern before position `n` is invalid.
pub open spec fn valid_below(expansions: Seq<Expansion>, n: int) -> bool {
    forall|i: int| 0 <= i < n && i < expansions.len() ==> !(#[trigger] expansions[i] is Invalid)
}

/// The pattern at `index` is the first invalid one.
pub open spec fn first_invalid_at(expansions: Seq<Expansion>, index: int) -> bool {
    &&& 0 <= index < expansions.len()
    &&& expansions[index] is Invalid
    &&& valid_below(expansions, index)
}

/// The pass fails on an invalid pattern.
pub open spec fn fails_on_pattern(found: Discovery, e: SyncError) -> bool {
    e matches SyncError::InvalidPattern { index } && first_invalid_at(
        found.expansions@,
        index as int,
    )
}

/// The pass fails on the root directory: every pattern is valid, and the root
/// directory could not be read.
pub open spec fn fails_on_root(found: Discovery, e: SyncError) -> bool {
    &&& e is UnreadableRoot
    &&& valid_below(found.expansions@, found.expansions@.len() as int)
    &&& found.root is Unreadable
}

/// The pass succeeds with these plans: every pattern is valid, the root
/// directory was read, and there is one plan for each user that it registers,
/// in the order of its entries, made from all the scripts that were found.
pub open spec fn succeeds_with(clean: bool, found: Discovery, plans: Seq<UserPlan>) -> bool {
    &&& valid_below(found.expansions@, found.expansions@.len() as int)
    &&& found.root matches Listing::Entries(entries)
    &&& plans.map_values(|p: UserPlan| p@) == plans_for(
        scripts_of(found.expansions@),
        users_among(entries@),
        clean,
    )
}

impl Sync {
    /// The scripts among everything that the patterns matched, pattern by
    /// pattern and match by match. Fails on the first invalid pattern, whatever
    /// the others matched.
    pub fn get_scripts(expansions: &Vec<Expansion>) -> (r: Result<Vec<Script>, SyncError>)
        ensures
            match r {
                Ok(scripts) => {
                    &&& valid_below(expansions@, expansions@.len() as int)
                    &&& views(scripts@) == scripts_of(expansions@)
                },
                Err(e) => e matches SyncError::InvalidPattern { index } && first_invalid_at(
                    expansions@,
                    index as int,
                ),
            },
    {
        let ghost per_pattern = expansions@.map_values(
            |e: Expansion| scripts_among(matches_of(e)),
        );
        let mut scripts: Vec<Script> = Vec::new();
        let mut i: usize = 0;
        assert(per_pattern.take(0) =~= Seq::empty());
        while i < expansions.len()
            invariant
                i <= expansions.len(),
                per_pattern == expansions@.map_values(|e: Expansion| scripts_among(matches_of(e))),
                valid_below(expansions@, i as int),
                views(scripts@) == per_pattern.take(i as int).flatten(),
            decreases expansions.len() - i,
        {
            match &expansions[i] {
                Expansion::Invalid => {
                    return Err(SyncError::InvalidPattern { index: i });
                },
                Expansion::Paths(found) => {
                    let mut more = Script::among(found);
                    proof {
                        assert(per_pattern.take(i + 1) =~= per_pattern.take(i as int).push(
                            per_pattern[i as int],
                        ));
                        per_pattern.take(i as int).lemma_flatten_push(per_pattern[i as int]);
                        assert(views(scripts@ + more@) =~= views(scripts@) + views(more@));
                    }
                    scripts.append(&mut more);
                },
            }
            i += 1;
        }
        assert(per_pattern.take(i as int) =~= per_pattern);
        Ok(scripts)
    }

    /// The users that the root directory registers, in the order of its
    /// entries. Fails where the directory could not be read.
    pub fn get_users(root: &Listing) -> (r: Result<Vec<User>, SyncError>)
        ensures
            match r {
                Ok(users) => root matches Listing::Entries(entries) && user_views(users@)
                    == users_among(entries@),
                Err(e) => e is UnreadableRoot && root is Unreadable,
            },
    {
        match root {
            Listing::Unreadable => Err(SyncError::UnreadableRoot),
            Listing::Entries(entries) => Ok(User::among(entries)),
        }
    }

    /// Decides what is to be done on disk. An invalid pattern fails the pass,
    /// the first one being reported; otherwise an unreadable root directory
    /// fails it. A pass that fails plans nothing.
    pub fn run(&self, _cli: &Cli, found: &Discovery) -> (r: Result<Vec<UserPlan>, SyncError>)
        ensures
            match r {
                Ok(plans) => succeeds_with(self.clean, *found, plans@),
                Err(e) => fails_on_pattern(*found, e) || fails_on_root(*found, e),
            },
    {
        let scripts = match Sync::get_scripts(&found.expansions) {
            Ok(scripts) => scripts,
            Err(e) => {
                return Err(e);
            },
        };
        let users = match Sync::get_users(&found.root) {
            Ok(users) => users,
            Err(e) => {
                return Err(e);
            },
        };
        let plans = UserPlan::for_all(&scripts, &users, self.clean);
        assert(plans.deep_view() =~= plans@.map_values(|p: UserPlan| p@));
        Ok(plans)
    }
}

} // verus!
