//! Where the root directory is looked for when none is named: below the
//! directory that an environment variable of the platform names.
use vstd::prelude::*;
use vstd::string::*;

verus! {

/// The kinds of platform that have a default root directory.
#[derive(Clone, Copy, Debug, PartialEq, Eq, Structural)]
pub enum Platform {
    Windows,
    Unix,
}

/// The name of the environment variable that holds the directory below which
/// the root directory lies.
pub open spec fn home_variable(platform: Platform) -> Seq<char> {
    match platform {
        Platform::Windows => "APPDATA"@,
        Platform::Unix => "HOME"@,
    }
}

/// The root directory's path below the directory that the variable names.
pub open spec fn root_below_home(platform: Platform) -> Seq<char> {
    match platform {
        Platform::Windows => "hackmud"@,
        Platform::Unix => ".config/hackmud"@,
    }
}

/// The name of the environment variable that holds the directory below which
/// the root directory lies.
pub fn home_variable_of(platform: Platform) -> (name: String)
    ensures
        name@ == home_variable(platform),
{
    match platform {
        Platform::Windows => String::from_str("APPDATA"),
        Platform::Unix => String::from_str("HOME"),
    }
}

/// The default root directory, as the two paths to join: `home`, which is what
/// the platform's variable holds, and the root directory's path below it.
pub fn default_hackmud_path(platform: Platform, home: String) -> (path: Vec<String>)
    ensures
        path.deep_view() == seq![home@, root_below_home(platform)],
{
    let below = match platform {
        Platform::Windows => String::from_str("hackmud"),
        Platform::Unix => String::from_str(".config/hackmud"),
    };
    let mut path: Vec<String> = Vec::new();
    path.push(home);
    path.push(below);
    assert(path.deep_view() =~= seq![home@, root_below_home(platform)]);
    path
}

} // verus!
