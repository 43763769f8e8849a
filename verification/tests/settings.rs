use relgen::identifier::ValidationError;
use relgen::path::PathError;
use relgen::settings::{get_settings, RawSettings, SettingsError, SettingsKey};

fn some(s: &str) -> Option<String> {
    Some(s.to_string())
}

fn raw() -> RawSettings {
    RawSettings {
        source_repo: some("https://github.com/bevyengine/bevy.git"),
        migration_notes_repo: some("bevyengine/bevy-website"),
        migration_notes_local_path: some("/work/bevy-website"),
        project_prefix: some("release-content"),
    }
}

fn probes() -> Vec<Option<String>> {
    vec![some("/"), some("/mnt/work"), None]
}

#[test]
fn all_values_present_and_valid() {
    let s = get_settings(&raw(), None, &probes()).unwrap();
    assert_eq!(s.source_repo.to_text(), "bevyengine/bevy");
    assert_eq!(s.migration_notes_repo.to_text(), "bevyengine/bevy-website");
    assert_eq!(s.migration_notes_local_path.as_str(), "/mnt/work/bevy-website");
    assert_eq!(s.project_prefix.as_ref().unwrap().as_str(), "release-content");
    let c = s.clone();
    assert_eq!(c.source_repo.to_text(), "bevyengine/bevy");
    assert_eq!(c.migration_notes_local_path.as_str(), "/mnt/work/bevy-website");
}

#[test]
fn the_prefix_is_optional() {
    let mut r = raw();
    r.project_prefix = None;
    let s = get_settings(&r, None, &probes()).unwrap();
    assert!(s.project_prefix.is_none());
}

#[test]
fn each_required_key_is_missed() {
    let mut r = raw();
    r.source_repo = None;
    assert!(matches!(
        get_settings(&r, None, &probes()),
        Err(SettingsError::MissingRequiredKey(SettingsKey::SourceRepo))
    ));
    let mut r = raw();
    r.migration_notes_repo = None;
    assert!(matches!(
        get_settings(&r, None, &probes()),
        Err(SettingsError::MissingRequiredKey(SettingsKey::MigrationNotesRepo))
    ));
    let mut r = raw();
    r.migration_notes_local_path = None;
    assert!(matches!(
        get_settings(&r, None, &probes()),
        Err(SettingsError::MissingRequiredKey(SettingsKey::MigrationNotesLocalPath))
    ));
}

#[test]
fn invalid_values_give_the_underlying_error() {
    let mut r = raw();
    r.source_repo = some("nonsense");
    match get_settings(&r, None, &probes()) {
        Err(SettingsError::Invalid(ValidationError::InvalidRepoIdentifier(v))) => {
            assert_eq!(v, "nonsense")
        }
        other => panic!("{other:?}"),
    }
    let mut r = raw();
    r.migration_notes_repo = some("-x/y");
    match get_settings(&r, None, &probes()) {
        Err(SettingsError::Invalid(ValidationError::InvalidRepoIdentifier(v))) => {
            assert_eq!(v, "-x/y")
        }
        other => panic!("{other:?}"),
    }
    let mut r = raw();
    r.project_prefix = some("../up");
    match get_settings(&r, None, &probes()) {
        Err(SettingsError::Invalid(ValidationError::InvalidLabel(v))) => assert_eq!(v, "../up"),
        other => panic!("{other:?}"),
    }
    let mut r = raw();
    r.migration_notes_local_path = some("relative/notes");
    assert!(matches!(
        get_settings(&r, None, &probes()),
        Err(SettingsError::Path(PathError::MissingBaseDir))
    ));
    match get_settings(&raw(), None, &vec![]) {
        Err(SettingsError::Path(PathError::CanonicalizationFailed(p))) => {
            assert_eq!(p, "/work/bevy-website")
        }
        other => panic!("{other:?}"),
    }
}

#[test]
fn a_local_path_that_does_not_resolve_to_an_absolute_path() {
    match get_settings(&raw(), None, &vec![some("somewhere")]) {
        Err(SettingsError::Path(PathError::CanonicalizationFailed(p))) => {
            assert_eq!(p, "/work/bevy-website")
        }
        other => panic!("{other:?}"),
    }
}

#[test]
fn the_first_defect_decides() {
    let r = RawSettings {
        source_repo: None,
        migration_notes_repo: some("bad"),
        migration_notes_local_path: None,
        project_prefix: some("/"),
    };
    assert!(matches!(
        get_settings(&r, None, &vec![]),
        Err(SettingsError::MissingRequiredKey(SettingsKey::SourceRepo))
    ));
    let r = RawSettings {
        source_repo: some("a/b"),
        migration_notes_repo: some("bad"),
        migration_notes_local_path: None,
        project_prefix: some("/"),
    };
    assert!(matches!(
        get_settings(&r, None, &vec![]),
        Err(SettingsError::Invalid(ValidationError::InvalidRepoIdentifier(_)))
    ));
    let r = RawSettings {
        source_repo: some("a/b"),
        migration_notes_repo: some("c/d"),
        migration_notes_local_path: some("/x"),
        project_prefix: some("/"),
    };
    assert!(matches!(
        get_settings(&r, None, &vec![]),
        Err(SettingsError::Path(PathError::CanonicalizationFailed(_)))
    ));
}

#[test]
fn key_names() {
    assert_eq!(SettingsKey::SourceRepo.name(), "source_repo");
    assert_eq!(SettingsKey::MigrationNotesRepo.name(), "migration_notes_repo");
    assert_eq!(SettingsKey::MigrationNotesLocalPath.name(), "migration_notes_local_path");
    assert_eq!(SettingsKey::ProjectPrefix.name(), "project_prefix");
}

#[test]
fn settings_messages() {
    assert_eq!(
        SettingsError::MissingRequiredKey(SettingsKey::SourceRepo).message(),
        "No source_repo specified"
    );
    assert_eq!(
        SettingsError::Invalid(ValidationError::InvalidRepoIdentifier("x".to_string())).message(),
        "x is not a valid github repository name"
    );
    assert_eq!(
        SettingsError::Path(PathError::MissingBaseDir).message(),
        "No base directory was given for a relative path"
    );
}
