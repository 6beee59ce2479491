//! Scripts, and how they are told from the other paths that the patterns match.
use crate::names::{parse_script_name, script_name};
use std::path::PathBuf;
use vstd::prelude::*;

verus! {

/// A script to install: where it lies, the name it is installed under, and the
/// one user it is addressed to, if it is not meant for all of them.
#[derive(Clone, Debug)]
pub struct Script {
    pub user_override: Option<String>,
    pub name: String,
    pub path: PathBuf,
}

/// The mathematical value of a `Script`.
pub ghost struct ScriptView {
    pub user_override: Option<Seq<char>>,
    pub name: Seq<char>,
    pub path: PathBuf,
}

impl View for Script {
    type V = ScriptView;

    open spec fn view(&self) -> ScriptView {
        ScriptView {
            user_override: self.user_override.deep_view(),
            name: self.name@,
            path: self.path,
        }
    }
}

impl DeepView for Script {
    type V = ScriptView;

    open spec fn deep_view(&self) -> ScriptView {
        self@
    }
}

/// One thing that the expansion of a pattern came upon.
#[derive(Clone, Debug)]
pub enum Found {
    /// Something that could not be read.
    Unreadable,
    /// A path, with its last component where the path has one and it is text.
    Path { path: PathBuf, file_name: Option<String> },
}

/// What the expansion of one pattern gave.
#[derive(Clone, Debug)]
pub enum Expansion {
    /// The pattern is not a pattern.
    Invalid,
    /// The pattern's matches, in the order in which they were found.
    Paths(Vec<Found>),
}

/// The script that a match stands for, if it stands for one: a readable path
/// whose file name is text that reads as a script's.
pub open spec fn script_of(found: Found) -> Option<ScriptView> {
    match found {
        Found::Path { path, file_name: Some(file_name) } => match script_name(file_name@) {
            Some(parsed) => Some(
                ScriptView { user_override: parsed.user_override, name: parsed.name, path },
            ),
            None => None,
        },
        _ => None,
    }
}

/// The scripts among some matches, in the order of the matches.
pub open spec fn scripts_among(found: Seq<Found>) -> Seq<ScriptView> {
    found.filter_map(|f: Found| script_of(f))
}

/// The matches of an expansion; none where the pattern is invalid.
pub open spec fn matches_of(expansion: Expansion) -> Seq<Found> {
    match expansion {
        Expansion::Invalid => Seq::empty(),
        Expansion::Paths(found) => found@,
    }
}

/// The scripts among the matches of all the expansions, pattern by pattern.
pub open spec fn scripts_of(expansions: Seq<Expansion>) -> Seq<ScriptView> {
    expansions.map_values(|e: Expansion| scripts_among(matches_of(e))).flatten()
}

/// The views of some scripts.
pub open spec fn views(scripts: Seq<Script>) -> Seq<ScriptView> {
    scripts.map_values(|s: Script| s@)
}

impl Script {
    /// The script that a match stands for, if it stands for one.
    pub fn from_found(found: &Found) -> (r: Option<Script>)
        ensures
            r.deep_view() == script_of(*found),
    {
        match found {
            Found::Path { path, file_name: Some(file_name) } => {
                match parse_script_name(file_name.as_str()) {
                    Some(parsed) => Some(
                        Script {
                            user_override: parsed.user_override,
                            name: parsed.name,
                            path: path.clone(),
                        },
                    ),
                    None => None,
                }
            },
            _ => None,
        }
    }

    /// The scripts among some matches, in the order of the matches.
    pub fn among(found: &Vec<Found>) -> (scripts: Vec<Script>)
        ensures
            views(scripts@) == scripts_among(found@),
    {
        let mut scripts: Vec<Script> = Vec::new();
        let mut i: usize = 0;
        while i < found.len()
            invariant
                i <= found.len(),
                views(scripts@) == scripts_among(found@.take(i as int)),
            decreases found.len() - i,
        {
            proof {
                found@.lemma_filter_map_take_succ(|f: Found| script_of(f), i as int);
            }
            match Script::from_found(&found[i]) {
                Some(script) => {
                    assert(views(scripts@.push(script)) =~= views(scripts@).push(script@));
                    scripts.push(script);
                },
                None => {},
            }
            i += 1;
        }
        assert(found@.take(i as int) =~= found@);
        scripts
    }
}

} // verus!
