use hm_scripts::plan::{CopyStep, UserPlan};
use hm_scripts::resolve::{has_default_before, has_override_from, is_selected, resolve};
use hm_scripts::script::Script;
use hm_scripts::user::User;
use std::path::PathBuf;

fn script(path: &str, name: &str, user: Option<&str>) -> Script {
    Script {
        user_override: user.map(|u| u.to_string()),
        name: name.to_string(),
        path: PathBuf::from(path),
    }
}

fn user(name: &str) -> User {
    User::new(name.to_string())
}

#[test]
fn without_overrides_each_name_is_received_once() {
    let scripts = vec![
        script("a/greet.js", "greet", None),
        script("a/count.js", "count", None),
        script("b/greet.js", "greet", None),
        script("b/count.js", "count", None),
        script("b/list.js", "list", None),
    ];
    for name in ["alice", "bob"] {
        assert_eq!(resolve(&scripts, &user(name)), vec![0, 1, 4]);
    }
}

#[test]
fn the_first_default_wins_over_later_ones() {
    let scripts = vec![script("a/greet.js", "greet", None), script("b/greet.js", "greet", None)];
    let plan = UserPlan::new(&scripts, &user("alice"), false);
    assert_eq!(plan.copies.len(), 1);
    assert_eq!(plan.copies[0].from, PathBuf::from("a/greet.js"));
}

#[test]
fn an_override_wins_over_the_default_whatever_the_order() {
    let before = vec![
        script("greet.alice.js", "greet", Some("alice")),
        script("greet.js", "greet", None),
    ];
    assert_eq!(resolve(&before, &user("alice")), vec![0]);
    assert_eq!(resolve(&before, &user("bob")), vec![1]);
    let after = vec![
        script("greet.js", "greet", None),
        script("greet.alice.js", "greet", Some("alice")),
    ];
    assert_eq!(resolve(&after, &user("alice")), vec![1]);
    assert_eq!(resolve(&after, &user("bob")), vec![0]);
}

#[test]
fn the_last_override_wins_over_earlier_ones() {
    let scripts = vec![
        script("a/greet.alice.js", "greet", Some("alice")),
        script("greet.js", "greet", None),
        script("b/greet.alice.js", "greet", Some("alice")),
    ];
    assert_eq!(resolve(&scripts, &user("alice")), vec![2]);
    assert_eq!(resolve(&scripts, &user("bob")), vec![1]);
}

#[test]
fn an_override_without_a_default_goes_to_its_user_alone() {
    let scripts = vec![script("secret.alice.js", "secret", Some("alice"))];
    assert_eq!(resolve(&scripts, &user("alice")), vec![0]);
    assert_eq!(resolve(&scripts, &user("bob")), Vec::<usize>::new());
}

#[test]
fn each_user_with_an_override_receives_their_own() {
    let scripts = vec![
        script("greet.js", "greet", None),
        script("greet.alice.js", "greet", Some("alice")),
        script("greet.bob.js", "greet", Some("bob")),
    ];
    assert_eq!(resolve(&scripts, &user("alice")), vec![1]);
    assert_eq!(resolve(&scripts, &user("bob")), vec![2]);
    assert_eq!(resolve(&scripts, &user("carol")), vec![0]);
}

#[test]
fn no_scripts_give_an_empty_selection() {
    assert_eq!(resolve(&vec![], &user("alice")), Vec::<usize>::new());
}

#[test]
fn selection_is_decided_script_by_script() {
    let scripts = vec![
        script("greet.js", "greet", None),
        script("greet.alice.js", "greet", Some("alice")),
        script("other/greet.js", "greet", None),
    ];
    let alice = "alice".to_string();
    let bob = "bob".to_string();
    assert!(!is_selected(&scripts, &alice, 0));
    assert!(is_selected(&scripts, &alice, 1));
    assert!(!is_selected(&scripts, &alice, 2));
    assert!(is_selected(&scripts, &bob, 0));
    assert!(!is_selected(&scripts, &bob, 1));
    assert!(!is_selected(&scripts, &bob, 2));
    assert!(!is_selected(&scripts, &bob, 3));
}

#[test]
fn overrides_are_looked_for_from_a_position_on() {
    let scripts = vec![
        script("greet.alice.js", "greet", Some("alice")),
        script("greet.js", "greet", None),
    ];
    let alice = "alice".to_string();
    let greet = "greet".to_string();
    assert!(has_override_from(&scripts, &alice, &greet, 0));
    assert!(!has_override_from(&scripts, &alice, &greet, 1));
    assert!(!has_override_from(&scripts, &alice, &greet, 7));
    assert!(!has_override_from(&scripts, &"bob".to_string(), &greet, 0));
    assert!(!has_override_from(&scripts, &alice, &"count".to_string(), 0));
}

#[test]
fn defaults_are_looked_for_up_to_a_position() {
    let scripts = vec![
        script("greet.alice.js", "greet", Some("alice")),
        script("greet.js", "greet", None),
    ];
    let greet = "greet".to_string();
    assert!(!has_default_before(&scripts, &greet, 0));
    assert!(!has_default_before(&scripts, &greet, 1));
    assert!(has_default_before(&scripts, &greet, 2));
    assert!(has_default_before(&scripts, &greet, 9));
    assert!(!has_default_before(&scripts, &"count".to_string(), 2));
}

#[test]
fn a_copy_goes_from_the_script_to_its_name_with_the_extension() {
    let step = CopyStep::of(&script("src/lib/greet.alice.js", "greet", Some("alice")));
    assert_eq!(step.name, "greet");
    assert_eq!(step.from, PathBuf::from("src/lib/greet.alice.js"));
    assert_eq!(step.file_name, "greet.js");
}

#[test]
fn a_plan_names_its_user_and_copies_in_the_order_of_the_scripts() {
    let scripts = vec![
        script("b.js", "b", None),
        script("a.bob.js", "a", Some("bob")),
        script("a.js", "a", None),
        script("c.js", "c", None),
    ];
    let plan = UserPlan::new(&scripts, &user("alice"), true);
    assert_eq!(plan.user.name, "alice");
    assert_eq!(plan.user.scripts_path, vec!["alice".to_string(), "scripts".to_string()]);
    assert!(plan.clean);
    let names: Vec<&str> = plan.copies.iter().map(|c| c.file_name.as_str()).collect();
    assert_eq!(names, vec!["b.js", "a.js", "c.js"]);
    let sources: Vec<PathBuf> = plan.copies.iter().map(|c| c.from.clone()).collect();
    assert_eq!(sources, vec![PathBuf::from("b.js"), PathBuf::from("a.js"), PathBuf::from("c.js")]);
}

#[test]
fn no_two_copies_of_a_plan_go_to_the_same_file() {
    let scripts = vec![
        script("a/greet.js", "greet", None),
        script("b/greet.js", "greet", None),
        script("a/greet.alice.js", "greet", Some("alice")),
        script("b/greet.alice.js", "greet", Some("alice")),
        script("count.js", "count", None),
    ];
    let plan = UserPlan::new(&scripts, &user("alice"), false);
    let mut names: Vec<&str> = plan.copies.iter().map(|c| c.file_name.as_str()).collect();
    assert_eq!(names, vec!["greet.js", "count.js"]);
    names.dedup();
    assert_eq!(names.len(), 2);
    assert_eq!(plan.copies[0].from, PathBuf::from("b/greet.alice.js"));
}

#[test]
fn plans_are_made_for_every_user_in_order() {
    let scripts = vec![script("greet.js", "greet", None)];
    let users = vec![user("bob"), user("alice")];
    let plans = UserPlan::for_all(&scripts, &users, false);
    assert_eq!(plans.len(), 2);
    assert_eq!(plans[0].user.name, "bob");
    assert_eq!(plans[1].user.name, "alice");
    assert!(!plans[0].clean && !plans[1].clean);
    assert_eq!(plans[0].copies.len(), 1);
    assert_eq!(plans[1].copies.len(), 1);
    assert!(UserPlan::for_all(&scripts, &vec![], true).is_empty());
}
