use cube_envd::auth::token_matches;
use cube_envd::defaults::Defaults;
use cube_envd::path::lexical_normalize;

#[test]
fn token_check_allows_when_unset_and_requires_when_set() {
    assert!(token_matches(None, None));
    assert!(token_matches(Some("x"), None));
    assert!(token_matches(Some("x"), Some("x")));
    assert!(!token_matches(None, Some("x")));
    assert!(!token_matches(Some("y"), Some("x")));
}

#[test]
fn empty_user_and_workdir_fall_back() {
    let defaults = Defaults {
        user: Some(String::new()),
        workdir: Some(String::new()),
        ..Defaults::default()
    };
    assert_eq!(defaults.user_or_root(), "root");
    assert_eq!(defaults.workdir(), None);
}

#[test]
fn lexical_normalize_preserves_leading_parent_for_relative_paths() {
    assert_eq!(lexical_normalize("a/../../b".as_bytes()), "../b".as_bytes());
}

#[test]
fn lexical_normalize_collapses_absolute_parent() {
    assert_eq!(lexical_normalize("/a/b/../c".as_bytes()), "/a/c".as_bytes());
    assert_eq!(lexical_normalize("/..".as_bytes()), "/".as_bytes());
}
