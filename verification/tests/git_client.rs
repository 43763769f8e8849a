use relgen::git_client::{CommitStage, GitClient, RepoError, SessionState, SessionStep};

fn client(clone: bool) -> GitClient {
    GitClient::new(
        "token".to_string(),
        "user".to_string(),
        "/work/notes".to_string(),
        "https://github.com/o/notes".to_string(),
        clone,
    )
}

#[test]
fn a_new_session_has_tried_nothing() {
    let c = client(true);
    assert_eq!(c.state(), SessionState::Unopened);
    assert_eq!(c.github_token(), "token");
    assert_eq!(c.github_username(), "user");
    assert_eq!(c.repo_local_path(), "/work/notes");
    assert_eq!(c.repo_remote_url(), "https://github.com/o/notes");
}

#[test]
fn found_working_copy_is_open() {
    for clone in [false, true] {
        let mut c = client(clone);
        assert_eq!(c.opened(true).unwrap(), SessionStep::Ready);
        assert_eq!(c.state(), SessionState::Open);
    }
}

#[test]
fn missing_working_copy_without_clone_fails() {
    let mut c = client(false);
    match c.opened(false) {
        Err(RepoError::RepositoryNotFound(p)) => assert_eq!(p, "/work/notes"),
        other => panic!("{other:?}"),
    }
    assert_eq!(c.state(), SessionState::Failed);
}

#[test]
fn missing_working_copy_is_cloned() {
    let mut c = client(true);
    assert_eq!(c.opened(false).unwrap(), SessionStep::Clone);
    assert_eq!(c.state(), SessionState::Cloning);
    assert!(c.cloned(Ok(())).is_ok());
    assert_eq!(c.state(), SessionState::Open);
    assert_eq!(c.repo_local_path(), "/work/notes");
}

#[test]
fn failed_clone_is_final() {
    let mut c = client(true);
    assert_eq!(c.opened(false).unwrap(), SessionStep::Clone);
    match c.cloned(Err("no network".to_string())) {
        Err(RepoError::CloneFailed(cause)) => assert_eq!(cause, "no network"),
        other => panic!("{other:?}"),
    }
    assert_eq!(c.state(), SessionState::Failed);
}

#[test]
fn a_commit_goes_through_its_steps_in_order() {
    let mut c = client(false);
    c.opened(true).unwrap();
    let mut commit = c.create_single_file_commit("0.14/1234.md", "message");
    assert_eq!(commit.path(), "0.14/1234.md");
    assert_eq!(commit.message(), "message");
    assert_eq!(commit.stage(), CommitStage::StagePath);
    commit.advance(Ok(())).unwrap();
    assert_eq!(commit.stage(), CommitStage::WriteTree);
    commit.advance(Ok(())).unwrap();
    assert_eq!(commit.stage(), CommitStage::ResolveHead);
    commit.advance(Ok(())).unwrap();
    assert_eq!(commit.stage(), CommitStage::CreateCommit);
    commit.advance(Ok(())).unwrap();
    assert_eq!(commit.stage(), CommitStage::Done);
    assert_eq!(commit.path(), "0.14/1234.md");
    assert_eq!(commit.message(), "message");
}

#[test]
fn a_failed_step_ends_the_commit() {
    let mut c = client(false);
    c.opened(true).unwrap();
    let mut commit = c.create_single_file_commit("a.md", "m");
    commit.advance(Ok(())).unwrap();
    commit.advance(Ok(())).unwrap();
    match commit.advance(Err("unborn HEAD".to_string())) {
        Err(RepoError::CommitFailed(cause)) => assert_eq!(cause, "unborn HEAD"),
        other => panic!("{other:?}"),
    }
    assert_eq!(commit.stage(), CommitStage::Failed);
}

#[test]
fn repo_messages() {
    assert_eq!(
        RepoError::RepositoryNotFound("/w".to_string()).message(),
        "No git repository found at /w. Try --clone if you would like to clone it from the remote"
    );
    assert_eq!(RepoError::CloneFailed("x".to_string()).message(), "failed to clone: x");
    assert_eq!(RepoError::CommitFailed("y".to_string()).message(), "failed to commit: y");
}
