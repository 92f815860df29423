use starship_profiles::error::ProfileError;
use starship_profiles::matcher::{interpret_search, pattern_matches};
use starship_profiles::profile::Profile;

fn profile(name: &str, patterns: &[&str]) -> Profile {
    Profile {
        name: name.to_string(),
        patterns: patterns.iter().map(|p| p.to_string()).collect(),
    }
}

#[test]
fn pattern_matches_below_the_home_directory() {
    let r = pattern_matches("~/code/.*", "/home/alice/code/proj", "/home/alice");
    assert!(matches!(r, Ok(true)));
}

#[test]
fn pattern_matches_anywhere_in_the_directory() {
    assert!(matches!(pattern_matches("/tmp", "/var/tmp/x", "/home/alice"), Ok(true)));
    assert!(matches!(pattern_matches("work", "/home/alice/work/a", "/home/alice"), Ok(true)));
}

#[test]
fn pattern_that_does_not_occur_does_not_match() {
    assert!(matches!(pattern_matches("^/tmp$", "/tmp/x", "/home/alice"), Ok(false)));
    assert!(matches!(pattern_matches("~/code", "/home/bob/code", "/home/alice"), Ok(false)));
}

#[test]
fn pattern_is_a_regular_expression_not_a_plain_text() {
    assert!(matches!(pattern_matches("^/srv/[0-9]+$", "/srv/2024", "/h"), Ok(true)));
    assert!(matches!(pattern_matches("^/srv/[0-9]+$", "/srv/[0-9]+", "/h"), Ok(false)));
}

#[test]
fn directory_is_expanded_like_the_pattern() {
    assert!(matches!(pattern_matches("^/home/alice/x$", "~/x", "/home/alice"), Ok(true)));
    assert!(matches!(pattern_matches("^~/x$", "~/x", "/home/alice"), Ok(true)));
    assert!(matches!(pattern_matches("^~/x$", "/home/alice/x", "/home/alice"), Ok(true)));
}

#[test]
fn invalid_pattern_is_an_error_that_names_the_expanded_pattern() {
    match pattern_matches("~/(", "/tmp", "/home/alice") {
        Err(ProfileError::InvalidPattern { pattern }) => assert_eq!(pattern, "/home/alice/("),
        other => panic!("unexpected: {:?}", other),
    }
}

#[test]
fn home_can_make_a_pattern_invalid() {
    assert!(matches!(pattern_matches("~", "/tmp", "/tmp"), Ok(true)));
    assert!(matches!(
        pattern_matches("~", "/tmp", "["),
        Err(ProfileError::InvalidPattern { .. })
    ));
}

#[test]
fn search_results_are_handed_on() {
    assert!(matches!(interpret_search(Ok(true), "a".to_string()), Ok(true)));
    assert!(matches!(interpret_search(Ok(false), "a".to_string()), Ok(false)));
}

#[test]
fn compile_error_becomes_invalid_pattern() {
    let refused = regex::Regex::new("(").unwrap_err();
    match interpret_search(Err(refused), "(".to_string()) {
        Err(ProfileError::InvalidPattern { pattern }) => assert_eq!(pattern, "("),
        other => panic!("unexpected: {:?}", other),
    }
}

#[test]
fn profile_without_patterns_never_matches() {
    let p = profile("empty", &[]);
    assert!(matches!(p.matches("/tmp", "/home/alice"), Ok(false)));
    assert!(matches!(p.matches("", ""), Ok(false)));
    assert!(matches!(p.matches("~", "/home/alice"), Ok(false)));
}

#[test]
fn profile_matches_if_any_pattern_does() {
    let p = profile("work", &["^/srv", "~/work", "^/opt"]);
    assert!(matches!(p.matches("/home/alice/work/x", "/home/alice"), Ok(true)));
    assert!(matches!(p.matches("/opt/tool", "/home/alice"), Ok(true)));
    assert!(matches!(p.matches("/srv", "/home/alice"), Ok(true)));
    assert!(matches!(p.matches("/usr", "/home/alice"), Ok(false)));
}

#[test]
fn profile_expands_the_directory() {
    let p = profile("home", &["^/home/alice$"]);
    assert!(matches!(p.matches("~", "/home/alice"), Ok(true)));
}

#[test]
fn profile_stops_at_the_first_match() {
    let p = profile("work", &["/tmp", "("]);
    assert!(matches!(p.matches("/tmp/x", "/home/alice"), Ok(true)));
}

#[test]
fn profile_with_invalid_pattern_before_a_match_fails() {
    let p = profile("work", &["(", "/tmp"]);
    match p.matches("/tmp/x", "/home/alice") {
        Err(ProfileError::InvalidPattern { pattern }) => assert_eq!(pattern, "("),
        other => panic!("unexpected: {:?}", other),
    }
}

#[test]
fn profile_with_invalid_pattern_after_no_match_fails() {
    let p = profile("work", &["/srv", "[a", "/tmp"]);
    match p.matches("/usr", "/home/alice") {
        Err(ProfileError::InvalidPattern { pattern }) => assert_eq!(pattern, "[a"),
        other => panic!("unexpected: {:?}", other),
    }
}
