//! Users, and how their markers are told from the other entries of the root
//! directory.
use crate::names::{marker_name, parse_marker_name};
use vstd::prelude::*;
use vstd::string::*;

verus! {

/// A registered user: the name, and the directory that holds the user's
/// scripts, given by its components below the root directory.
#[derive(Clone, Debug)]
pub struct User {
    pub name: String,
    pub scripts_path: Vec<String>,
}

/// The mathematical value of a `User`.
pub ghost struct UserView {
    pub name: Seq<char>,
    pub scripts_path: Seq<Seq<char>>,
}

impl View for User {
    type V = UserView;

    open spec fn view(&self) -> UserView {
        UserView { name: self.name@, scripts_path: self.scripts_path.deep_view() }
    }
}

impl DeepView for User {
    type V = UserView;

    open spec fn deep_view(&self) -> UserView {
        self@
    }
}

/// One entry of the root directory.
#[derive(Clone, Debug)]
pub enum Entry {
    /// An entry that could not be read.
    Unreadable,
    /// An entry that is no regular file, or whose kind is not known.
    NotAFile,
    /// A regular file, with its name where that is text.
    File { file_name: Option<String> },
}

/// What listing the root directory gave.
#[derive(Clone, Debug)]
pub enum Listing {
    /// The directory could not be read.
    Unreadable,
    /// Its entries, in the order in which they were listed.
    Entries(Vec<Entry>),
}

/// Where the scripts of the user called `name` lie below the root directory:
/// in `scripts`, inside the directory called as the user is.
pub open spec fn scripts_path_of(name: Seq<char>) -> Seq<Seq<char>> {
    seq![name, "scripts"@]
}

/// The user that a name registers.
pub open spec fn user_named(name: Seq<char>) -> UserView {
    UserView { name, scripts_path: scripts_path_of(name) }
}

/// The user that an entry registers, if it registers one: a regular file whose
/// name is text that reads as a marker's.
pub open spec fn user_of(entry: Entry) -> Option<UserView> {
    match entry {
        Entry::File { file_name: Some(file_name) } => match marker_name(file_name@) {
            Some(name) => Some(user_named(name)),
            None => None,
        },
        _ => None,
    }
}

/// The users that some entries register, in the order of the entries.
pub open spec fn users_among(entries: Seq<Entry>) -> Seq<UserView> {
    entries.filter_map(|e: Entry| user_of(e))
}

/// The views of some users.
pub open spec fn user_views(users: Seq<User>) -> Seq<UserView> {
    users.map_values(|u: User| u@)
}

impl User {
    /// The user called `name`.
    pub fn new(name: String) -> (user: User)
        ensures
            user@ == user_named(name@),
    {
        let mut scripts_path: Vec<String> = Vec::new();
        scripts_path.push(name.clone());
        scripts_path.push(String::from_str("scripts"));
        assert(scripts_path.deep_view() =~= scripts_path_of(name@));
        User { name, scripts_path }
    }

    /// The user that an entry registers, if it registers one.
    pub fn from_entry(entry: &Entry) -> (r: Option<User>)
        ensures
            r.deep_view() == user_of(*entry),
    {
        match entry {
            Entry::File { file_name: Some(file_name) } => {
                match parse_marker_name(file_name.as_str()) {
                    Some(name) => Some(User::new(name)),
                    None => None,
                }
            },
            _ => None,
        }
    }

    /// The users that some entries register, in the order of the entries.
    pub fn among(entries: &Vec<Entry>) -> (users: Vec<User>)
        ensures
            user_views(users@) == users_among(entries@),
    {
        let mut users: Vec<User> = Vec::new();
        let mut i: usize = 0;
        while i < entries.len()
            invariant
                i <= entries.len(),
                user_views(users@) == users_among(entries@.take(i as int)),
            decreases entries.len() - i,
        {
            proof {
                entries@.lemma_filter_map_take_succ(|e: Entry| user_of(e), i as int);
            }
            match User::from_entry(&entries[i]) {
                Some(user) => {
                    assert(user_views(users@.push(user)) =~= user_views(users@).push(user@));
                    users.push(user);
                },
                None => {},
            }
            i += 1;
        }
        assert(entries@.take(i as int) =~= entries@);
        users
    }

    /// A copy of this user.
    pub fn duplicate(&self) -> (copy: User)
        ensures
            copy@ == self@,
    {
        let mut scripts_path: Vec<String> = Vec::new();
        let mut i: usize = 0;
        while i < self.scripts_path.len()
            invariant
                i <= self.scripts_path.len(),
                scripts_path.len() == i,
                forall|j: int| 0 <= j < i ==> scripts_path[j] == self.scripts_path[j],
            decreases self.scripts_path.len() - i,
        {
            scripts_path.push(self.scripts_path[i].clone());
            i += 1;
        }
        assert(scripts_path.deep_view() =~= self.scripts_path.deep_view());
        User { name: self.name.clone(), scripts_path }
    }
}

} // verus!
