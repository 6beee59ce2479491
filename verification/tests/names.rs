use hm_scripts::names::{
    extension_of, find_last_dot, installed_name_of, parse_marker_name, parse_script_name,
    split_stem_of, stem_of,
};

#[test]
fn last_dot_is_found_from_the_right() {
    assert_eq!(find_last_dot("greet.alice.js"), Some(11));
    assert_eq!(find_last_dot(".js"), Some(0));
    assert_eq!(find_last_dot("greet."), Some(5));
    assert_eq!(find_last_dot("greet"), None);
    assert_eq!(find_last_dot(""), None);
}

#[test]
fn last_dot_counts_characters_not_bytes() {
    assert_eq!(find_last_dot("grüß.js"), Some(4));
    assert_eq!(extension_of("grüß.js"), Some("js".to_string()));
    assert_eq!(stem_of("grüß.js"), "grüß");
}

#[test]
fn extension_is_what_follows_the_last_dot() {
    assert_eq!(extension_of("greet.js"), Some("js".to_string()));
    assert_eq!(extension_of("greet.alice.js"), Some("js".to_string()));
    assert_eq!(extension_of("archive.tar.gz"), Some("gz".to_string()));
    assert_eq!(extension_of("greet."), Some(String::new()));
}

#[test]
fn a_name_without_an_inner_dot_has_no_extension() {
    assert_eq!(extension_of("greet"), None);
    assert_eq!(extension_of(".js"), None);
    assert_eq!(extension_of(""), None);
}

#[test]
fn stem_is_what_precedes_the_last_dot() {
    assert_eq!(stem_of("greet.js"), "greet");
    assert_eq!(stem_of("greet.alice.js"), "greet.alice");
    assert_eq!(stem_of("greet."), "greet");
    assert_eq!(stem_of("greet"), "greet");
    assert_eq!(stem_of(".js"), ".js");
    assert_eq!(stem_of(""), "");
}

#[test]
fn a_stem_without_a_dot_is_the_script_name() {
    let parsed = split_stem_of("greet");
    assert_eq!(parsed.name, "greet");
    assert_eq!(parsed.user_override, None);
}

#[test]
fn a_stem_with_two_segments_names_the_script_then_the_user() {
    let parsed = split_stem_of("greet.alice");
    assert_eq!(parsed.name, "greet");
    assert_eq!(parsed.user_override, Some("alice".to_string()));
}

#[test]
fn only_the_last_two_segments_of_a_stem_are_read() {
    let parsed = split_stem_of("lib.greet.alice");
    assert_eq!(parsed.name, "greet");
    assert_eq!(parsed.user_override, Some("alice".to_string()));
}

#[test]
fn empty_segments_are_kept_as_they_are() {
    let parsed = split_stem_of("greet.");
    assert_eq!(parsed.name, "greet");
    assert_eq!(parsed.user_override, Some(String::new()));
    let parsed = split_stem_of(".alice");
    assert_eq!(parsed.name, "");
    assert_eq!(parsed.user_override, Some("alice".to_string()));
}

#[test]
fn script_file_names_are_read() {
    let parsed = parse_script_name("greet.js").unwrap();
    assert_eq!(parsed.name, "greet");
    assert_eq!(parsed.user_override, None);
    let parsed = parse_script_name("greet.alice.js").unwrap();
    assert_eq!(parsed.name, "greet");
    assert_eq!(parsed.user_override, Some("alice".to_string()));
}

#[test]
fn other_extensions_are_no_scripts() {
    assert!(parse_script_name("greet.ts").is_none());
    assert!(parse_script_name("greet.JS").is_none());
    assert!(parse_script_name("greet.jsx").is_none());
    assert!(parse_script_name("greet.js.bak").is_none());
    assert!(parse_script_name("greet").is_none());
    assert!(parse_script_name("js").is_none());
    assert!(parse_script_name(".js").is_none());
    assert!(parse_script_name("").is_none());
}

#[test]
fn marker_file_names_are_read() {
    assert_eq!(parse_marker_name("alice.key"), Some("alice".to_string()));
    assert_eq!(parse_marker_name("a.b.key"), Some("a.b".to_string()));
}

#[test]
fn other_extensions_are_no_markers() {
    assert_eq!(parse_marker_name("alice.js"), None);
    assert_eq!(parse_marker_name("alice.keys"), None);
    assert_eq!(parse_marker_name("alice"), None);
    assert_eq!(parse_marker_name(".key"), None);
    assert_eq!(parse_marker_name("key"), None);
}

#[test]
fn installed_name_adds_the_script_extension() {
    assert_eq!(installed_name_of("greet"), "greet.js");
    assert_eq!(installed_name_of(""), ".js");
}
