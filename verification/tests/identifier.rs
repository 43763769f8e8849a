use relgen::identifier::{normalize_repo_identifier, validate_label, ValidationError};

#[test]
fn plain_identifier_is_kept() {
    let id = normalize_repo_identifier("bevyengine/bevy").unwrap();
    assert_eq!(id.owner(), "bevyengine");
    assert_eq!(id.name(), "bevy");
    assert_eq!(id.to_text(), "bevyengine/bevy");
}

#[test]
fn address_forms_give_the_same_identifier() {
    for raw in [
        "https://github.com/bevyengine/bevy-website.git/",
        "https://github.com/bevyengine/bevy-website",
        "bevyengine/bevy-website",
        "https://github.com/bevyengine/bevy-website/",
        "https://github.com/bevyengine/bevy-website.git",
        "git@github.com/bevyengine/bevy-website.git",
        "github.com/bevyengine/bevy-website",
        "bevyengine/bevy-website/",
        "bevyengine/bevy-website.git",
        "bevyengine/bevy-website.git/",
    ] {
        let id = normalize_repo_identifier(raw).unwrap();
        assert_eq!(id.owner(), "bevyengine", "{raw}");
        assert_eq!(id.name(), "bevy-website", "{raw}");
    }
}

#[test]
fn normalizing_twice_is_normalizing_once() {
    for raw in ["a/b", "bevyengine/bevy", "Owner-1/na.me_x-", "a-/b.git", "x/y.gi"] {
        let once = normalize_repo_identifier(raw).unwrap();
        let twice = normalize_repo_identifier(&once.to_text()).unwrap();
        assert_eq!(once.owner(), twice.owner());
        assert_eq!(once.name(), twice.name());
    }
}

#[test]
fn each_pass_takes_one_git_suffix() {
    let once = normalize_repo_identifier("a/b.git.git").unwrap();
    assert_eq!(once.to_text(), "a/b.git");
    let twice = normalize_repo_identifier(&once.to_text()).unwrap();
    assert_eq!(twice.to_text(), "a/b");
}

#[test]
fn malformed_identifiers_are_rejected() {
    for raw in ["/name", "-owner/name", "owner/na/me", "", "owner", "a--b/c", "1abc/x", "a_b/c", "a.b/c"] {
        match normalize_repo_identifier(raw) {
            Err(ValidationError::InvalidRepoIdentifier(v)) => assert_eq!(v, raw),
            other => panic!("{raw:?} gave {other:?}"),
        }
    }
}

#[test]
fn rejected_value_is_the_candidate() {
    match normalize_repo_identifier("https://github.com/-bad/name.git/") {
        Err(ValidationError::InvalidRepoIdentifier(v)) => assert_eq!(v, "-bad/name"),
        other => panic!("{other:?}"),
    }
    match normalize_repo_identifier("owner/") {
        Err(ValidationError::InvalidRepoIdentifier(v)) => assert_eq!(v, "owner"),
        other => panic!("{other:?}"),
    }
    match normalize_repo_identifier("a/.git") {
        Err(ValidationError::InvalidRepoIdentifier(v)) => assert_eq!(v, "a/"),
        other => panic!("{other:?}"),
    }
}

#[test]
fn the_leftmost_marker_counts() {
    let id = normalize_repo_identifier("x/github.com/owner/name").unwrap();
    assert_eq!(id.to_text(), "owner/name");
    match normalize_repo_identifier("github.com/github.com/a/b") {
        Err(ValidationError::InvalidRepoIdentifier(v)) => assert_eq!(v, "github.com/a/b"),
        other => panic!("{other:?}"),
    }
}

#[test]
fn a_marker_with_nothing_usable_after_it_is_no_marker() {
    // Nothing follows the marker: the text is taken as a whole.
    let id = normalize_repo_identifier("a/github.com/").unwrap();
    assert_eq!(id.owner(), "a");
    assert_eq!(id.name(), "github.com");
    // A line feed follows the first marker: the second one counts.
    let id = normalize_repo_identifier("github.com/a\ngithub.com/b/c").unwrap();
    assert_eq!(id.to_text(), "b/c");
}

#[test]
fn the_capture_is_never_empty() {
    match normalize_repo_identifier("github.com/.git/") {
        Err(ValidationError::InvalidRepoIdentifier(v)) => assert_eq!(v, ".git"),
        other => panic!("{other:?}"),
    }
    match normalize_repo_identifier("github.com//") {
        Err(ValidationError::InvalidRepoIdentifier(v)) => assert_eq!(v, "/"),
        other => panic!("{other:?}"),
    }
}

#[test]
fn owner_grammar() {
    assert!(normalize_repo_identifier("a/x").is_ok());
    assert!(normalize_repo_identifier("a-/x").is_ok());
    assert!(normalize_repo_identifier("a-b-c/x").is_ok());
    assert!(normalize_repo_identifier("a1/x").is_ok());
    assert!(normalize_repo_identifier("a--/x").is_err());
    assert!(normalize_repo_identifier("9a/x").is_err());
    assert!(normalize_repo_identifier("a b/x").is_err());
}

#[test]
fn label_grammar() {
    assert_eq!(validate_label("0.10.0").unwrap().as_str(), "0.10.0");
    assert_eq!(validate_label("v0.9.0-rc.1").unwrap().as_str(), "v0.9.0-rc.1");
    assert_eq!(validate_label("_").unwrap().as_str(), "_");
    for raw in ["", "/etc/passwd", ".hidden", "..", "-x", "a/b", "a b", "a\n"] {
        match validate_label(raw) {
            Err(ValidationError::InvalidLabel(v)) => assert_eq!(v, raw),
            Ok(_) => panic!("{raw:?} was accepted"),
            Err(other) => panic!("{raw:?} gave {other:?}"),
        }
    }
}

#[test]
fn classes_beyond_ascii_follow_the_unicode_tables() {
    assert!(validate_label("été").is_ok());
    assert!(validate_label("v٣").is_ok());
    assert!(validate_label("€uro").is_err());
    assert!(validate_label("a€").is_err());
    // An Arabic-Indic digit is a digit, and so may stand in an owner; a letter beyond
    // ASCII may not, though it may stand in a name.
    assert!(normalize_repo_identifier("abc٣/x").is_ok());
    assert!(normalize_repo_identifier("abcé/x").is_err());
    assert!(normalize_repo_identifier("abc/é").is_ok());
    assert!(normalize_repo_identifier("abc/€").is_err());
}

#[test]
fn validation_messages_name_the_value() {
    let e = normalize_repo_identifier("not a repo").unwrap_err();
    assert_eq!(e.message(), "not a repo is not a valid github repository name");
    let e = validate_label("/etc/passwd").unwrap_err();
    assert_eq!(e.message(), "\"/etc/passwd\" is not a valid release or prefix name");
}

#[test]
fn clones_are_equal() {
    let id = normalize_repo_identifier("a/b").unwrap();
    assert_eq!(id.clone().to_text(), "a/b");
    let label = validate_label("0.1").unwrap();
    assert_eq!(label.clone().as_str(), "0.1");
}
