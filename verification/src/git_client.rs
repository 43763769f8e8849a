//! The session on the local working copy of the notes repository.
//!
//! The session decides; the caller acts. It says whether to open, to clone or to give up,
//! and in which order a single file is committed. The caller performs each step on the
//! working copy and reports how it ended.

use vstd::prelude::*;
use vstd::string::StringExecFns;

verus! {

/// Where a session stands.
#[derive(Clone, Copy, Debug, PartialEq, Eq, Structural)]
pub enum SessionState {
    /// Nothing has been tried yet.
    Unopened,
    /// No working copy was found, and one is being cloned.
    Cloning,
    /// The working copy is open.
    Open,
    /// The session has no working copy and will not get one.
    Failed,
}

/// What the caller does next to get an open working copy.
#[derive(Clone, Copy, Debug, PartialEq, Eq, Structural)]
pub enum SessionStep {
    /// Nothing: the working copy is open.
    Ready,
    /// Clone the remote repository into the local path.
    Clone,
}

/// What a [`RepoError`] stands for.
pub enum RepoFault {
    RepositoryNotFound(Seq<char>),
    CloneFailed(Seq<char>),
    CommitFailed(Seq<char>),
}

/// A failure of the working copy.
#[derive(Debug)]
pub enum RepoError {
    /// There is no working copy at the given path, and cloning was not allowed.
    RepositoryNotFound(String),
    /// Cloning failed, for the given cause.
    CloneFailed(String),
    /// A step of a commit failed, for the given cause.
    CommitFailed(String),
}

impl View for RepoError {
    type V = RepoFault;

    open spec fn view(&self) -> RepoFault {
        match self {
            RepoError::RepositoryNotFound(p) => RepoFault::RepositoryNotFound(p@),
            RepoError::CloneFailed(c) => RepoFault::CloneFailed(c@),
            RepoError::CommitFailed(c) => RepoFault::CommitFailed(c@),
        }
    }
}

/// What a failure of the working copy tells the user. Where no working copy was found,
/// it says how to get one.
pub open spec fn repo_message(e: RepoFault) -> Seq<char> {
    match e {
        RepoFault::RepositoryNotFound(p) => "No git repository found at "@ + p
            + ". Try --clone if you would like to clone it from the remote"@,
        RepoFault::CloneFailed(c) => "failed to clone: "@ + c,
        RepoFault::CommitFailed(c) => "failed to commit: "@ + c,
    }
}

impl RepoError {
    pub fn message(&self) -> (m: String)
        ensures
            m@ == repo_message(self@),
    {
        match self {
            RepoError::RepositoryNotFound(p) => {
                let mut m = String::from_str("No git repository found at ");
                m.append(p.as_str());
                m.append(". Try --clone if you would like to clone it from the remote");
                m
            },
            RepoError::CloneFailed(c) => {
                let mut m = String::from_str("failed to clone: ");
                m.append(c.as_str());
                m
            },
            RepoError::CommitFailed(c) => {
                let mut m = String::from_str("failed to commit: ");
                m.append(c.as_str());
                m
            },
        }
    }
}

/// The steps of a commit of one file, in their order, and the two ways it ends.
#[derive(Clone, Copy, Debug, PartialEq, Eq, Structural)]
pub enum CommitStage {
    /// Stage the one path in the index, and nothing else.
    StagePath,
    /// Write the index to a tree.
    WriteTree,
    /// Resolve `HEAD` to its commit.
    ResolveHead,
    /// Create the commit from that tree, with that commit as its only parent, author and
    /// committer both taken from the local identity, and move `HEAD` to it.
    CreateCommit,
    /// The commit exists.
    Done,
    /// A step failed; nothing more is to be done.
    Failed,
}

/// The stage that follows a stage that went well.
pub open spec fn next_stage(stage: CommitStage) -> CommitStage {
    match stage {
        CommitStage::StagePath => CommitStage::WriteTree,
        CommitStage::WriteTree => CommitStage::ResolveHead,
        CommitStage::ResolveHead => CommitStage::CreateCommit,
        CommitStage::CreateCommit => CommitStage::Done,
        CommitStage::Done => CommitStage::Done,
        CommitStage::Failed => CommitStage::Failed,
    }
}

/// A stage at which there is still something to do.
pub open spec fn is_pending(stage: CommitStage) -> bool {
    stage != CommitStage::Done && stage != CommitStage::Failed
}

/// What a [`SingleFileCommit`] stands for.
pub struct SingleFileCommitView {
    pub path: Seq<char>,
    pub message: Seq<char>,
    pub stage: CommitStage,
}

/// The commit of one file on top of the current `HEAD`.
#[derive(Debug)]
pub struct SingleFileCommit {
    path: String,
    message: String,
    stage: CommitStage,
}

impl View for SingleFileCommit {
    type V = SingleFileCommitView;

    closed spec fn view(&self) -> SingleFileCommitView {
        SingleFileCommitView { path: self.path@, message: self.message@, stage: self.stage }
    }
}

impl SingleFileCommit {
    /// The path to stage, relative to the root of the working copy.
    pub fn path(&self) -> (s: &str)
        ensures
            s@ == self@.path,
    {
        self.path.as_str()
    }

    pub fn message(&self) -> (s: &str)
        ensures
            s@ == self@.message,
    {
        self.message.as_str()
    }

    /// The step that the caller is to perform now.
    pub fn stage(&self) -> (s: CommitStage)
        ensures
            s == self@.stage,
    {
        self.stage
    }

    /// Takes note of how the current step ended: on success the next stage is due, on
    /// failure the commit is given up with `CommitFailed` and the cause.
    pub fn advance(&mut self, outcome: Result<(), String>) -> (r: Result<(), RepoError>)
        requires
            is_pending(old(self)@.stage),
        ensures
            final(self)@.path == old(self)@.path,
            final(self)@.message == old(self)@.message,
            outcome is Ok ==> r is Ok && final(self)@.stage == next_stage(old(self)@.stage),
            outcome matches Err(cause) ==> final(self)@.stage == CommitStage::Failed && (r matches Err(
                e,
            ) && e@ == RepoFault::CommitFailed(cause@)),
    {
        match outcome {
            Ok(_) => {
                self.stage =
                match self.stage {
                    CommitStage::StagePath => CommitStage::WriteTree,
                    CommitStage::WriteTree => CommitStage::ResolveHead,
                    CommitStage::ResolveHead => CommitStage::CreateCommit,
                    CommitStage::CreateCommit => CommitStage::Done,
                    CommitStage::Done => CommitStage::Done,
                    CommitStage::Failed => CommitStage::Failed,
                };
                Ok(())
            },
            Err(cause) => {
                self.stage = CommitStage::Failed;
                Err(RepoError::CommitFailed(cause))
            },
        }
    }
}

/// What a [`GitClient`] stands for.
pub struct GitClientView {
    pub github_token: Seq<char>,
    pub github_username: Seq<char>,
    pub repo_local_path: Seq<char>,
    pub repo_remote_url: Seq<char>,
    pub allow_clone: bool,
    pub state: SessionState,
}

/// The session on one local working copy. The token and the user name serve to
/// authenticate a clone and nothing else.
pub struct GitClient {
    github_token: String,
    github_username: String,
    repo_local_path: String,
    repo_remote_url: String,
    allow_clone: bool,
    state: SessionState,
}

impl View for GitClient {
    type V = GitClientView;

    closed spec fn view(&self) -> GitClientView {
        GitClientView {
            github_token: self.github_token@,
            github_username: self.github_username@,
            repo_local_path: self.repo_local_path@,
            repo_remote_url: self.repo_remote_url@,
            allow_clone: self.allow_clone,
            state: self.state,
        }
    }
}

/// The session after the attempt to open the working copy.
pub open spec fn after_open(before: GitClientView, found: bool) -> GitClientView {
    GitClientView {
        state: if found {
            SessionState::Open
        } else if before.allow_clone {
            SessionState::Cloning
        } else {
            SessionState::Failed
        },
        ..before
    }
}

/// The session after the attempt to clone.
pub open spec fn after_clone(before: GitClientView, cloned: bool) -> GitClientView {
    GitClientView {
        state: if cloned {
            SessionState::Open
        } else {
            SessionState::Failed
        },
        ..before
    }
}

impl GitClient {
    /// A session on the working copy at `local_path`, with nothing tried yet. With `clone`
    /// the working copy may be cloned from `remote_url` if it is not found.
    pub fn new(
        github_token: String,
        github_username: String,
        local_path: String,
        remote_url: String,
        clone: bool,
    ) -> (client: GitClient)
        ensures
            client@ == (GitClientView {
                github_token: github_token@,
                github_username: github_username@,
                repo_local_path: local_path@,
                repo_remote_url: remote_url@,
                allow_clone: clone,
                state: SessionState::Unopened,
            }),
    {
        GitClient {
            github_token,
            github_username,
            repo_local_path: local_path,
            repo_remote_url: remote_url,
            allow_clone: clone,
            state: SessionState::Unopened,
        }
    }

    pub fn state(&self) -> (s: SessionState)
        ensures
            s == self@.state,
    {
        self.state
    }

    pub fn github_token(&self) -> (s: &str)
        ensures
            s@ == self@.github_token,
    {
        self.github_token.as_str()
    }

    pub fn github_username(&self) -> (s: &str)
        ensures
            s@ == self@.github_username,
    {
        self.github_username.as_str()
    }

    pub fn repo_local_path(&self) -> (s: &str)
        ensures
            s@ == self@.repo_local_path,
    {
        self.repo_local_path.as_str()
    }

    pub fn repo_remote_url(&self) -> (s: &str)
        ensures
            s@ == self@.repo_remote_url,
    {
        self.repo_remote_url.as_str()
    }

    /// Takes note of the attempt to open the working copy. Found, the session is open.
    /// Not found, it goes on to clone where that is allowed, and else fails with
    /// `RepositoryNotFound` and the local path.
    pub fn opened(&mut self, found: bool) -> (r: Result<SessionStep, RepoError>)
        requires
            old(self)@.state == SessionState::Unopened,
        ensures
            final(self)@ == after_open(old(self)@, found),
            found ==> r == Ok::<SessionStep, RepoError>(SessionStep::Ready),
            !found && old(self)@.allow_clone ==> r == Ok::<SessionStep, RepoError>(
                SessionStep::Clone,
            ),
            !found && !old(self)@.allow_clone ==> (r matches Err(e) && e@
                == RepoFault::RepositoryNotFound(old(self)@.repo_local_path)),
    {
        if found {
            self.state = SessionState::Open;
            Ok(SessionStep::Ready)
        } else if self.allow_clone {
            self.state = SessionState::Cloning;
            Ok(SessionStep::Clone)
        } else {
            self.state = SessionState::Failed;
            Err(RepoError::RepositoryNotFound(self.repo_local_path.clone()))
        }
    }

    /// Takes note of the attempt to clone: the session is open, or it has failed with
    /// `CloneFailed` and the cause.
    pub fn cloned(&mut self, outcome: Result<(), String>) -> (r: Result<(), RepoError>)
        requires
            old(self)@.state == SessionState::Cloning,
        ensures
            final(self)@ == after_clone(old(self)@, outcome is Ok),
            outcome is Ok ==> r is Ok,
            outcome matches Err(cause) ==> (r matches Err(e) && e@ == RepoFault::CloneFailed(
                cause@,
            )),
    {
        match outcome {
            Ok(_) => {
                self.state = SessionState::Open;
                Ok(())
            },
            Err(cause) => {
                self.state = SessionState::Failed;
                Err(RepoError::CloneFailed(cause))
            },
        }
    }

    /// Begins the commit of the one file at `path`, which is relative to the root of the
    /// working copy, with `message`. The commit starts by staging that path.
    pub fn create_single_file_commit(&self, path: &str, message: &str) -> (commit:
        SingleFileCommit)
        requires
            self@.state == SessionState::Open,
        ensures
            commit@ == (SingleFileCommitView {
                path: path@,
                message: message@,
                stage: CommitStage::StagePath,
            }),
    {
        SingleFileCommit {
            path: String::from_str(path),
            message: String::from_str(message),
            stage: CommitStage::StagePath,
        }
    }
}

} // verus!
