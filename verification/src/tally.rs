//! The counts that a pass ends with.
//!
//! The caller reports each thing that it did on disk as it does it; the
//! counts are kept here. `cleaned` counts every entry that a clean-up listed,
//! whether or not the entry could then be deleted; `removed` counts those that
//! were deleted.
use vstd::prelude::*;

verus! {

/// The running counts of a pass.
#[derive(Clone, Copy, Debug)]
pub struct Tally {
    cleaned: usize,
    removed: usize,
    copied: usize,
}

/// The mathematical value of a `Tally`.
pub ghost struct TallyView {
    pub cleaned: nat,
    pub removed: nat,
    pub copied: nat,
}

/// What is reported when the pass is over. The two counts of the clean-up are
/// there only where the pass was asked to clean.
#[derive(Clone, Copy, Debug, PartialEq, Eq, Structural)]
pub struct Summary {
    pub cleaned: Option<usize>,
    pub removed: Option<usize>,
    pub copied: usize,
    pub users: usize,
}

impl View for Tally {
    type V = TallyView;

    closed spec fn view(&self) -> TallyView {
        TallyView {
            cleaned: self.cleaned as nat,
            removed: self.removed as nat,
            copied: self.copied as nat,
        }
    }
}

impl Tally {
    /// No more entries were deleted than were listed.
    #[verifier::type_invariant]
    spec fn removed_were_listed(self) -> bool {
        self.removed <= self.cleaned
    }

    /// The counts before anything was done.
    pub fn new() -> (tally: Tally)
        ensures
            tally@ == (TallyView { cleaned: 0, removed: 0, copied: 0 }),
    {
        Tally { cleaned: 0, removed: 0, copied: 0 }
    }

    /// How many entries the clean-ups listed.
    pub fn cleaned(&self) -> (n: usize)
        ensures
            n == self@.cleaned,
    {
        self.cleaned
    }

    /// How many of the listed entries were deleted.
    pub fn removed(&self) -> (n: usize)
        ensures
            n == self@.removed,
            n <= self@.cleaned,
    {
        proof {
            use_type_invariant(self);
        }
        self.removed
    }

    /// How many copies were made.
    pub fn copied(&self) -> (n: usize)
        ensures
            n == self@.copied,
    {
        self.copied
    }

    /// Counts one entry that a clean-up listed. `removed` says whether the
    /// entry could be deleted; the entry counts as cleaned either way.
    pub fn record_removal(&mut self, removed: bool)
        requires
            old(self)@.cleaned < usize::MAX,
        ensures
            final(self)@ == (TallyView {
                cleaned: old(self)@.cleaned + 1,
                removed: if removed {
                    old(self)@.removed + 1
                } else {
                    old(self)@.removed
                },
                copied: old(self)@.copied,
            }),
    {
        proof {
            use_type_invariant(&*self);
        }
        self.cleaned += 1;
        if removed {
            self.removed += 1;
        }
    }

    /// Counts one copy that was tried. Only a copy that was made counts.
    pub fn record_copy(&mut self, copied: bool)
        requires
            old(self)@.copied < usize::MAX,
        ensures
            final(self)@ == (TallyView {
                cleaned: old(self)@.cleaned,
                removed: old(self)@.removed,
                copied: if copied {
                    old(self)@.copied + 1
                } else {
                    old(self)@.copied
                },
            }),
    {
        proof {
            use_type_invariant(&*self);
        }
        if copied {
            self.copied += 1;
        }
    }

    /// What is reported at the end of a pass over `users` users.
    pub fn summary(&self, clean: bool, users: usize) -> (summary: Summary)
        ensures
            clean ==> (summary.cleaned matches Some(cleaned) && cleaned == self@.cleaned),
            clean ==> (summary.removed matches Some(removed) && removed == self@.removed),
            !clean ==> summary.cleaned is None && summary.removed is None,
            summary.copied == self@.copied,
            summary.users == users,
            self@.removed <= self@.cleaned,
    {
        proof {
            use_type_invariant(self);
        }
        Summary {
            cleaned: if clean { Some(self.cleaned) } else { None },
            removed: if clean { Some(self.removed) } else { None },
            copied: self.copied,
            users,
        }
    }
}

} // verus!
