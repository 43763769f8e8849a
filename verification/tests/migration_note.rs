use relgen::git_client::{CommitStage, GitClient};
use relgen::identifier::ValidationError;
use relgen::migration_note::{
    build_commit_message, commit_message_from, create_migration_note_file,
    migration_notes_command, push_front_matter, section_request, write_migration_note,
    PipelineError, PullRequestRecord, PullRequestUser,
};
use relgen::settings::{get_settings, RawSettings, Settings};
use relgen::text::push_decimal;

fn pr(number: u64, body: Option<&str>) -> PullRequestRecord {
    PullRequestRecord {
        number,
        title: "Fix X".to_string(),
        body: body.map(|b| b.to_string()),
        closed_at: "2024-01-01T00:00:00Z".to_string(),
        user: PullRequestUser { login: "Alice-Dev".to_string(), id: 4242 },
        labels: vec![],
    }
}

fn open_client() -> GitClient {
    let mut c = GitClient::new(
        "t".to_string(),
        "u".to_string(),
        "/work/notes".to_string(),
        "https://github.com/o/notes".to_string(),
        false,
    );
    c.opened(true).unwrap();
    c
}

fn settings(prefix: Option<&str>) -> Settings {
    let raw = RawSettings {
        source_repo: Some("bevyengine/bevy".to_string()),
        migration_notes_repo: Some("https://github.com/bevyengine/bevy-website.git".to_string()),
        migration_notes_local_path: Some("/work/site".to_string()),
        project_prefix: prefix.map(|p| p.to_string()),
    };
    let probes = vec![Some("/".to_string()), Some("/work".to_string()), Some("/work/site".to_string())];
    get_settings(&raw, None, &probes).unwrap()
}

#[test]
fn decimal_numerals() {
    for (n, text) in [
        (0u64, "0"),
        (7, "7"),
        (10, "10"),
        (1234, "1234"),
        (1000000, "1000000"),
        (u64::MAX, "18446744073709551615"),
    ] {
        let mut s = String::from("#");
        push_decimal(&mut s, n);
        assert_eq!(s, format!("#{text}"));
    }
}

#[test]
fn note_without_areas() {
    let section = "## Migration Guide\n\nUse `y` instead of `x`.\n";
    let mut file = String::new();
    write_migration_note(&pr(1234, Some("body")), &vec![], section, &mut file).unwrap();
    assert_eq!(
        file,
        "+++\npr = 1234\ntitle = \"Fix X\"\nclose_date = \"2024-01-01T00:00:00Z\"\n+++\n\
         ## Migration Guide\n\nUse `y` instead of `x`.\n"
    );
    assert!(!file.contains("areas"));
}

#[test]
fn note_with_areas() {
    let mut file = String::new();
    let areas = vec!["ECS".to_string(), "Rendering".to_string(), "UI".to_string()];
    write_migration_note(&pr(5, Some("b")), &areas, "text", &mut file).unwrap();
    assert_eq!(
        file,
        "+++\npr = 5\ntitle = \"Fix X\"\nclose_date = \"2024-01-01T00:00:00Z\"\n\
         areas = [\"ECS\", \"Rendering\", \"UI\"]\n+++\ntext"
    );
    let mut one = String::new();
    push_front_matter(&mut one, &pr(5, None), &vec!["ECS".to_string()]);
    assert_eq!(
        one,
        "+++\npr = 5\ntitle = \"Fix X\"\nclose_date = \"2024-01-01T00:00:00Z\"\n\
         areas = [\"ECS\"]\n+++\n"
    );
}

#[test]
fn the_note_goes_after_what_the_sink_holds() {
    let mut file = String::from("kept\n");
    write_migration_note(&pr(1, Some("b")), &vec![], "s", &mut file).unwrap();
    assert!(file.starts_with("kept\n+++\npr = 1\n"));
    assert!(file.ends_with("+++\ns"));
}

#[test]
fn no_body_no_note() {
    let mut file = String::from("kept");
    match write_migration_note(&pr(77, None), &vec![], "s", &mut file) {
        Err(PipelineError::MissingBody(n)) => assert_eq!(n, 77),
        other => panic!("{other:?}"),
    }
    assert_eq!(file, "kept");
    match section_request(&pr(77, None)) {
        Err(PipelineError::MissingBody(n)) => assert_eq!(n, 77),
        other => panic!("{other:?}"),
    }
    match create_migration_note_file(&pr(77, None), &vec![], "s", "o/r", "/w", "0.1", false, None) {
        Err(PipelineError::MissingBody(n)) => assert_eq!(n, 77),
        other => panic!("{other:?}"),
    }
}

#[test]
fn what_is_asked_of_the_markdown_transform() {
    let q = section_request(&pr(1, Some("the body"))).unwrap();
    assert_eq!(q.body, "the body");
    assert_eq!(q.section_title, "migration guide");
    assert!(q.lint_clean);
}

#[test]
fn commit_message_names_the_author() {
    let m = build_commit_message("bevyengine/bevy", &pr(1234, Some("b")));
    assert_eq!(
        m,
        "Create migration note for bevyengine/bevy#1234\n\n\
         Co-authored-by: Alice-Dev <4242+alice-dev@users.noreply.github.com>"
    );
    let m = commit_message_from("o/r", 1, "Bob", 2, "bob");
    assert_eq!(m, "Create migration note for o/r#1\n\nCo-authored-by: Bob <2+bob@users.noreply.github.com>");
}

#[test]
fn lower_case_beyond_ascii() {
    let mut p = pr(1, Some("b"));
    p.user.login = "ÉMILE".to_string();
    let m = build_commit_message("o/r", &p);
    assert!(m.ends_with("Co-authored-by: ÉMILE <4242+émile@users.noreply.github.com>"));
}

#[test]
fn planned_note_without_commit() {
    let note = create_migration_note_file(
        &pr(1234, Some("body")),
        &vec![],
        "guide\n",
        "bevyengine/bevy",
        "/work/site",
        "0.14",
        false,
        None,
    )
    .unwrap();
    assert_eq!(note.relative_path, "0.14/1234.md");
    assert_eq!(note.absolute_path, "/work/site/0.14/1234.md");
    assert_eq!(
        note.content,
        "+++\npr = 1234\ntitle = \"Fix X\"\nclose_date = \"2024-01-01T00:00:00Z\"\n+++\nguide\n"
    );
    assert!(note.commit.is_none());
}

#[test]
fn planning_twice_gives_the_same_note() {
    let plan = || {
        create_migration_note_file(
            &pr(9, Some("body")),
            &vec!["ECS".to_string()],
            "guide",
            "o/r",
            "/w/",
            "prefix/0.14",
            false,
            None,
        )
        .unwrap()
    };
    let a = plan();
    let b = plan();
    assert_eq!(a.relative_path, b.relative_path);
    assert_eq!(a.absolute_path, b.absolute_path);
    assert_eq!(a.content, b.content);
    assert_eq!(a.absolute_path, "/w/prefix/0.14/9.md");
}

#[test]
fn planned_note_with_its_one_commit() {
    let client = open_client();
    let note = create_migration_note_file(
        &pr(1234, Some("body")),
        &vec![],
        "guide\n",
        "bevyengine/bevy",
        "/work/notes",
        "release-content/0.14",
        true,
        Some(&client),
    )
    .unwrap();
    assert_eq!(note.relative_path, "release-content/0.14/1234.md");
    assert_eq!(note.absolute_path, "/work/notes/release-content/0.14/1234.md");
    let commit = note.commit.as_ref().unwrap();
    assert_eq!(commit.path(), "release-content/0.14/1234.md");
    assert_eq!(commit.stage(), CommitStage::StagePath);
    assert_eq!(
        commit.message(),
        "Create migration note for bevyengine/bevy#1234\n\n\
         Co-authored-by: Alice-Dev <4242+alice-dev@users.noreply.github.com>"
    );
}

#[test]
fn the_commit_is_due_once_the_file_is_written() {
    let client = open_client();
    let plan = || {
        create_migration_note_file(&pr(3, Some("b")), &vec![], "g", "o/r", "/w", "0.1", true, Some(&client))
            .unwrap()
    };
    let commit = plan().written(Ok(())).unwrap().unwrap();
    assert_eq!(commit.path(), "0.1/3.md");
    match plan().written(Err("disk full".to_string())) {
        Err(PipelineError::WriteFailed(cause)) => assert_eq!(cause, "disk full"),
        other => panic!("{other:?}"),
    }
    let plain = create_migration_note_file(&pr(3, Some("b")), &vec![], "g", "o/r", "/w", "0.1", false, None)
        .unwrap();
    assert!(plain.written(Ok(())).unwrap().is_none());
}

#[test]
fn command_without_prefix() {
    let c = migration_notes_command(&settings(None), "0.14", false, false, true).unwrap();
    assert_eq!(c.remote_url, "https://github.com/bevyengine/bevy-website");
    assert_eq!(c.release_path, "0.14");
    assert_eq!(c.release_dir, "/work/site/0.14");
    assert_eq!(c.label, "C-Breaking-Change");
    assert!(!c.create_release);
    assert!(c.create_commit);
    assert!(c.clone);
}

#[test]
fn command_with_prefix() {
    let c = migration_notes_command(&settings(Some("release-content")), "0.14", true, true, false)
        .unwrap();
    assert_eq!(c.release_path, "release-content/0.14");
    assert_eq!(c.release_dir, "/work/site/release-content/0.14");
    assert!(c.create_release);
    assert!(!c.create_commit);
    assert!(!c.clone);
}

#[test]
fn invalid_release_name_stops_the_command() {
    for release in ["", "../0.14", "/etc/passwd", ".hidden"] {
        match migration_notes_command(&settings(None), release, true, false, true) {
            Err(ValidationError::InvalidLabel(v)) => assert_eq!(v, release),
            other => panic!("{other:?}"),
        }
    }
}

#[test]
fn missing_release_folder() {
    let c = migration_notes_command(&settings(None), "0.14", false, false, false).unwrap();
    match c.release_folder(false) {
        Err(PipelineError::ReleaseFolderMissing(p)) => assert_eq!(p, "/work/site/0.14"),
        other => panic!("{other:?}"),
    }
    assert_eq!(c.release_folder(true).unwrap(), false);
    let c = migration_notes_command(&settings(None), "0.14", true, false, false).unwrap();
    assert_eq!(c.release_folder(false).unwrap(), true);
    assert_eq!(c.release_folder(true).unwrap(), false);
}

#[test]
fn pipeline_messages() {
    assert_eq!(
        PipelineError::ReleaseFolderMissing("/w/0.14".to_string()).message(),
        "The release folder /w/0.14 was not found. Use --create-release to create it."
    );
    assert_eq!(PipelineError::MissingBody(12).message(), "Pull request #12 has no body");
    assert_eq!(
        PipelineError::WriteFailed("disk full".to_string()).message(),
        "failed to write the note: disk full"
    );
}

#[test]
fn each_pull_request_has_a_note_of_its_own() {
    let plan = |number: u64| {
        create_migration_note_file(&pr(number, Some("b")), &vec![], "g", "o/r", "/w", "0.1", false, None)
            .unwrap()
    };
    let (a, b, c) = (plan(1), plan(10), plan(100));
    assert_eq!(a.relative_path, "0.1/1.md");
    assert_eq!(b.relative_path, "0.1/10.md");
    assert_eq!(c.relative_path, "0.1/100.md");
    assert_ne!(a.absolute_path, b.absolute_path);
    assert_ne!(b.absolute_path, c.absolute_path);
}

#[test]
fn the_title_is_escaped() {
    let mut p = pr(8, Some("b"));
    p.title = "Fix \"X\" in C:\\dir".to_string();
    let mut file = String::new();
    write_migration_note(&p, &vec![], "", &mut file).unwrap();
    assert_eq!(
        file,
        "+++\npr = 8\ntitle = \"Fix \\\"X\\\" in C:\\\\dir\"\nclose_date = \"2024-01-01T00:00:00Z\"\n+++\n"
    );
    assert_eq!(file.lines().nth(2).unwrap(), r#"title = "Fix \"X\" in C:\\dir""#);
}

#[test]
fn a_title_stays_on_one_line() {
    let mut p = pr(8, Some("b"));
    p.title = "two\nlines\\".to_string();
    let mut file = String::new();
    push_front_matter(&mut file, &p, &vec![]);
    assert_eq!(file.lines().count(), 5);
    assert_eq!(file.lines().nth(2).unwrap(), r#"title = "two\nlines\\""#);
}

#[test]
fn a_plain_title_is_written_as_it_is() {
    let mut p = pr(8, Some("b"));
    p.title = "Rename `Foo` to 'Bar' (ünïcode) / #42".to_string();
    let note = create_migration_note_file(&p, &vec![], "", "o/r", "/w", "0.1", false, None).unwrap();
    assert_eq!(
        note.content.lines().nth(2).unwrap(),
        "title = \"Rename `Foo` to 'Bar' (ünïcode) / #42\""
    );
    p.title = String::new();
    let note = create_migration_note_file(&p, &vec![], "", "o/r", "/w", "0.1", false, None).unwrap();
    assert_eq!(note.content.lines().nth(2).unwrap(), "title = \"\"");
    p.title = "\"".to_string();
    let note = create_migration_note_file(&p, &vec![], "", "o/r", "/w", "0.1", false, None).unwrap();
    assert_eq!(note.content.lines().nth(2).unwrap(), "title = \"\\\"\"");
}
