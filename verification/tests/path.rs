use relgen::path::{
    candidate_path, join_paths, path_ancestors, path_from_str, starts_at_root, PathError,
};

fn some(s: &str) -> Option<String> {
    Some(s.to_string())
}

#[test]
fn rooted_paths() {
    assert!(starts_at_root("/"));
    assert!(starts_at_root("/home/user"));
    assert!(starts_at_root("C:/Users"));
    assert!(starts_at_root("C:\\Users"));
    assert!(!starts_at_root(""));
    assert!(!starts_at_root("notes"));
    assert!(!starts_at_root("./notes"));
    assert!(!starts_at_root("c:/Users"));
    assert!(!starts_at_root("C:Users"));
    assert!(!starts_at_root("C:"));
}

#[test]
fn joining() {
    assert_eq!(join_paths("/a", "b"), "/a/b");
    assert_eq!(join_paths("/a/", "b"), "/a/b");
    assert_eq!(join_paths("", "b"), "b");
    assert_eq!(join_paths("/a", ""), "/a/");
    assert_eq!(join_paths("/", "b"), "/b");
    assert_eq!(join_paths("/a", "/b"), "/b");
    assert_eq!(join_paths("a", "b/c"), "a/b/c");
}

#[test]
fn candidates() {
    assert_eq!(candidate_path("/x/y", None).unwrap(), "/x/y");
    assert_eq!(candidate_path("/x/y", Some("/base")).unwrap(), "/x/y");
    assert_eq!(candidate_path("x/y", Some("/base")).unwrap(), "/base/x/y");
    assert_eq!(candidate_path("C:\\x", Some("/base")).unwrap(), "C:\\x");
    assert!(matches!(candidate_path("x/y", None), Err(PathError::MissingBaseDir)));
}

#[test]
fn ancestors_shortest_first() {
    assert_eq!(path_ancestors("/a/b"), vec!["/", "/a", "/a/b"]);
    assert_eq!(path_ancestors("a/b"), vec!["", "a", "a/b"]);
    assert_eq!(path_ancestors("/"), vec!["/"]);
    assert_eq!(path_ancestors(""), vec![""]);
    assert_eq!(path_ancestors("/a//b/"), vec!["/", "/a", "/a//b"]);
    assert_eq!(path_ancestors("//a"), vec!["/", "//a"]);
    assert_eq!(path_ancestors("/a/./b"), vec!["/", "/a", "/a/.", "/a/./b"]);
}

#[test]
fn existing_part_is_canonical_and_the_rest_is_kept() {
    // `/` and `/tmp/link` exist, the latter as a link to `/real/target`; `0.14` does not.
    let probes = vec![some("/"), some("/tmp"), some("/real/target"), None];
    let p = path_from_str("/tmp/link/0.14", None, &probes).unwrap();
    assert_eq!(p.as_str(), "/real/target/0.14");
    let again = path_from_str("/tmp/link/0.14", None, &probes).unwrap();
    assert_eq!(again.as_str(), p.as_str());
}

#[test]
fn two_ancestors_exist_and_the_last_segment_does_not() {
    let probes = vec![some("/"), some("/private/var"), None];
    let p = path_from_str("/var/notes", None, &probes).unwrap();
    assert_eq!(p.as_str(), "/private/var/notes");
}

#[test]
fn several_missing_segments_are_kept_as_written() {
    let probes = vec![some("/"), some("/srv"), None, None, None];
    let p = path_from_str("/srv/a/../b", None, &probes).unwrap();
    assert_eq!(p.as_str(), "/srv/a/../b");
    let p = path_from_str("/srv//a/b/", None, &probes).unwrap();
    assert_eq!(p.as_str(), "/srv/a/b/");
}

#[test]
fn probes_after_a_gap_do_not_count() {
    let probes = vec![some("/"), None, some("/elsewhere")];
    let p = path_from_str("/a/b", None, &probes).unwrap();
    assert_eq!(p.as_str(), "/a/b");
}

#[test]
fn missing_probes_count_as_missing_ancestors() {
    let probes = vec![some("/")];
    let p = path_from_str("/a/b", None, &probes).unwrap();
    assert_eq!(p.as_str(), "/a/b");
}

#[test]
fn a_path_that_exists_whole() {
    let probes = vec![some("/"), some("/home"), some("/home/me")];
    let p = path_from_str("/home/me", None, &probes).unwrap();
    assert_eq!(p.as_str(), "/home/me/");
    // More probes than ancestors change nothing.
    let probes = vec![some("/"), some("/home"), some("/home/me"), some("/other")];
    let p = path_from_str("/home/me", None, &probes).unwrap();
    assert_eq!(p.as_str(), "/home/me/");
}

#[test]
fn relative_paths_are_taken_from_the_base() {
    let probes = vec![some("/"), some("/work"), some("/work/tool"), None];
    let p = path_from_str("notes", Some("/work/tool"), &probes).unwrap();
    assert_eq!(p.as_str(), "/work/tool/notes");
    match path_from_str("notes", None, &probes) {
        Err(PathError::MissingBaseDir) => {}
        other => panic!("{other:?}"),
    }
}

#[test]
fn no_ancestor_at_all() {
    match path_from_str("/a/b", None, &vec![None]) {
        Err(PathError::CanonicalizationFailed(p)) => assert_eq!(p, "/a/b"),
        other => panic!("{other:?}"),
    }
    match path_from_str("/a/b", None, &vec![]) {
        Err(PathError::CanonicalizationFailed(p)) => assert_eq!(p, "/a/b"),
        other => panic!("{other:?}"),
    }
    // A relative base gives the empty path as shortest ancestor, which never exists.
    match path_from_str("b", Some("a"), &vec![None]) {
        Err(PathError::CanonicalizationFailed(p)) => assert_eq!(p, "a/b"),
        other => panic!("{other:?}"),
    }
}

#[test]
fn path_messages() {
    assert_eq!(
        PathError::MissingBaseDir.message(),
        "No base directory was given for a relative path"
    );
    assert_eq!(
        PathError::CanonicalizationFailed("/a/b".to_string()).message(),
        "No ancestor of /a/b could be canonicalized"
    );
}

#[test]
fn a_probe_that_is_not_absolute_is_rejected() {
    let probes = vec![some("/"), some("relative/var"), None];
    match path_from_str("/var/notes", None, &probes) {
        Err(PathError::CanonicalizationFailed(p)) => assert_eq!(p, "/var/notes"),
        other => panic!("{other:?}"),
    }
    match path_from_str("/var/notes", None, &vec![some("")]) {
        Err(PathError::CanonicalizationFailed(p)) => assert_eq!(p, "/var/notes"),
        other => panic!("{other:?}"),
    }
    // Only the probe that is used has to be absolute.
    let probes = vec![some("not/rooted"), some("/private/var"), None];
    let p = path_from_str("/var/notes", None, &probes).unwrap();
    assert_eq!(p.as_str(), "/private/var/notes");
}

#[test]
fn resolved_paths_are_absolute() {
    for (raw, probes) in [
        ("/a/b", vec![some("/")]),
        ("/a/b", vec![some("/"), some("/x")]),
        ("/a", vec![some("C:\\"), some("C:\\a")]),
        ("/", vec![some("/")]),
    ] {
        let p = path_from_str(raw, None, &probes).unwrap();
        assert!(starts_at_root(p.as_str()), "{raw}");
        assert!(starts_at_root(p.clone().as_str()));
    }
}
