use hm_scripts::plan::UserPlan;
use hm_scripts::root::{default_hackmud_path, home_variable_of, Platform};
use hm_scripts::script::{Expansion, Found};
use hm_scripts::sync::{Discovery, Sync, SyncError};
use hm_scripts::tally::Tally;
use hm_scripts::user::{Entry, Listing};
use hm_scripts::{Cli, Command};
use std::path::PathBuf;

fn found(path: &str) -> Found {
    let path = PathBuf::from(path);
    let file_name = path.file_name().and_then(|n| n.to_str()).map(|n| n.to_string());
    Found::Path { path, file_name }
}

fn file(name: &str) -> Entry {
    Entry::File { file_name: Some(name.to_string()) }
}

fn expand(pattern: &str) -> Expansion {
    match glob::glob(pattern) {
        Ok(_) => Expansion::Paths(vec![]),
        Err(_) => Expansion::Invalid,
    }
}

fn settings(clean: bool) -> Sync {
    Sync { scripts: vec!["**/*".to_string()], hackmud_path: PathBuf::from("root"), clean }
}

fn cli(clean: bool) -> Cli {
    Cli { command: Command::Sync(settings(clean)) }
}

fn greetings() -> Discovery {
    Discovery {
        expansions: vec![Expansion::Paths(vec![found("greet.js"), found("greet.alice.js")])],
        root: Listing::Entries(vec![file("alice.key"), file("bob.key")]),
    }
}

fn shape(plans: &[UserPlan]) -> Vec<(String, Vec<String>, bool, Vec<(PathBuf, String)>)> {
    plans
        .iter()
        .map(|p| {
            (
                p.user.name.clone(),
                p.user.scripts_path.clone(),
                p.clean,
                p.copies.iter().map(|c| (c.from.clone(), c.file_name.clone())).collect(),
            )
        })
        .collect()
}

#[test]
fn the_override_goes_to_its_user_and_the_default_to_the_other() {
    let plans = cli(false).run(&greetings()).unwrap();
    assert_eq!(
        shape(&plans),
        vec![
            (
                "alice".to_string(),
                vec!["alice".to_string(), "scripts".to_string()],
                false,
                vec![(PathBuf::from("greet.alice.js"), "greet.js".to_string())],
            ),
            (
                "bob".to_string(),
                vec!["bob".to_string(), "scripts".to_string()],
                false,
                vec![(PathBuf::from("greet.js"), "greet.js".to_string())],
            ),
        ]
    );
}

#[test]
fn an_invalid_pattern_fails_the_pass_and_plans_nothing() {
    let discovery = Discovery {
        expansions: vec![expand("*.js"), expand("scripts/[.js")],
        root: Listing::Entries(vec![file("alice.key")]),
    };
    let outcome = cli(false).run(&discovery);
    assert_eq!(outcome.as_ref().unwrap_err(), &SyncError::InvalidPattern { index: 1 });
    assert_eq!(Cli::exit_status(&outcome), 1);
}

#[test]
fn an_unreadable_root_fails_the_pass_and_plans_nothing() {
    let discovery = Discovery {
        expansions: vec![Expansion::Paths(vec![found("greet.js")])],
        root: Listing::Unreadable,
    };
    let outcome = cli(true).run(&discovery);
    assert_eq!(outcome.as_ref().unwrap_err(), &SyncError::UnreadableRoot);
    assert_eq!(Cli::exit_status(&outcome), 1);
}

#[test]
fn an_invalid_pattern_is_reported_before_an_unreadable_root() {
    let discovery =
        Discovery { expansions: vec![Expansion::Invalid], root: Listing::Unreadable };
    let outcome = settings(false).run(&cli(false), &discovery);
    assert_eq!(outcome.unwrap_err(), SyncError::InvalidPattern { index: 0 });
}

#[test]
fn a_pass_that_succeeds_ends_with_status_zero() {
    let outcome = cli(false).run(&greetings());
    assert!(outcome.is_ok());
    assert_eq!(Cli::exit_status(&outcome), 0);
}

#[test]
fn a_pass_without_users_or_scripts_succeeds_with_nothing_to_do() {
    let nobody = Discovery {
        expansions: vec![Expansion::Paths(vec![found("greet.js")])],
        root: Listing::Entries(vec![file("notes.txt")]),
    };
    assert!(cli(true).run(&nobody).unwrap().is_empty());
    let nothing = Discovery { expansions: vec![], root: Listing::Entries(vec![file("a.key")]) };
    let plans = cli(true).run(&nothing).unwrap();
    assert_eq!(plans.len(), 1);
    assert!(plans[0].copies.is_empty());
    assert!(plans[0].clean);
}

#[test]
fn cleaning_is_planned_for_every_user_or_for_none() {
    let cleaning = cli(true).run(&greetings()).unwrap();
    assert!(cleaning.iter().all(|p| p.clean));
    let keeping = cli(false).run(&greetings()).unwrap();
    assert!(keeping.iter().all(|p| !p.clean));
}

#[test]
fn a_second_pass_plans_what_the_first_planned() {
    let mut command_line = cli(true);
    let first = command_line.run(&greetings()).unwrap();
    let second = command_line.run(&greetings()).unwrap();
    assert_eq!(shape(&first), shape(&second));
}

#[test]
fn running_leaves_the_command_line_as_it_was() {
    let mut command_line = cli(true);
    let _ = command_line.run(&greetings());
    let Command::Sync(sync) = &command_line.command;
    assert_eq!(sync.scripts, vec!["**/*".to_string()]);
    assert_eq!(sync.hackmud_path, PathBuf::from("root"));
    assert!(sync.clean);
}

#[test]
fn a_fresh_tally_counts_nothing() {
    let tally = Tally::new();
    assert_eq!((tally.cleaned(), tally.removed(), tally.copied()), (0, 0, 0));
}

#[test]
fn every_listed_entry_counts_as_cleaned_even_if_it_could_not_be_deleted() {
    let mut tally = Tally::new();
    tally.record_removal(true);
    tally.record_removal(false);
    tally.record_removal(true);
    assert_eq!(tally.cleaned(), 3);
    assert_eq!(tally.removed(), 2);
    assert_eq!(tally.copied(), 0);
}

#[test]
fn only_copies_that_were_made_count() {
    let mut tally = Tally::new();
    tally.record_copy(true);
    tally.record_copy(false);
    tally.record_copy(true);
    tally.record_copy(true);
    assert_eq!(tally.copied(), 3);
    assert_eq!(tally.cleaned(), 0);
    assert_eq!(tally.removed(), 0);
}

#[test]
fn the_summary_reports_the_clean_up_only_after_cleaning() {
    let mut tally = Tally::new();
    tally.record_removal(true);
    tally.record_removal(false);
    tally.record_copy(true);
    let cleaned = tally.summary(true, 2);
    assert_eq!(cleaned.cleaned, Some(2));
    assert_eq!(cleaned.removed, Some(1));
    assert_eq!(cleaned.copied, 1);
    assert_eq!(cleaned.users, 2);
    let kept = tally.summary(false, 2);
    assert_eq!(kept.cleaned, None);
    assert_eq!(kept.removed, None);
    assert_eq!(kept.copied, 1);
    assert_eq!(kept.users, 2);
}

#[test]
fn the_default_root_lies_below_the_home_of_the_platform() {
    assert_eq!(home_variable_of(Platform::Unix), "HOME");
    assert_eq!(home_variable_of(Platform::Windows), "APPDATA");
    assert_eq!(
        default_hackmud_path(Platform::Unix, "/home/alice".to_string()),
        vec!["/home/alice".to_string(), ".config/hackmud".to_string()]
    );
    assert_eq!(
        default_hackmud_path(Platform::Windows, "C:\\Users\\alice\\AppData".to_string()),
        vec!["C:\\Users\\alice\\AppData".to_string(), "hackmud".to_string()]
    );
}
